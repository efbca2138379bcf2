//! Naming engine: pure conversion of an identifier (a byte string) between
//! naming conventions, used to derive a default column name for a field.
//!
//! An identifier is split into words.  A word break falls on a `_` or `-`
//! separator (which is dropped), before an upper-case letter that follows a
//! lower-case letter, and before the last upper-case letter of an upper-case
//! run that is followed by a lower-case letter.  The words are then re-joined
//! and re-cased according to the target convention.

use vstd::prelude::*;

verus! {

/// A naming convention a container can impose on its unrenamed fields.
#[derive(Clone, Copy, PartialEq, Eq, Structural, Debug)]
pub enum NamingConvention {
    SnakeCase,
    ScreamingSnakeCase,
    KebabCase,
    ScreamingKebabCase,
    LowerCamelCase,
    UpperCamelCase,
}

pub open spec fn is_sep(b: u8) -> bool {
    b == 95 || b == 45
}

pub open spec fn is_upper(b: u8) -> bool {
    65 <= b && b <= 90
}

pub open spec fn is_lower(b: u8) -> bool {
    97 <= b && b <= 122
}

pub open spec fn to_lower(b: u8) -> u8 {
    if is_upper(b) {
        (b + 32) as u8
    } else {
        b
    }
}

pub open spec fn to_upper(b: u8) -> u8 {
    if is_lower(b) {
        (b - 32) as u8
    } else {
        b
    }
}

/// Whether some word byte occurs strictly before position `i`.
pub open spec fn word_started(s: Seq<u8>, i: int) -> bool {
    exists|j: int| 0 <= j < i && !is_sep(s[j])
}

/// Whether a new word begins at position `i` (given `s[i]` is not a separator).
pub open spec fn word_break(s: Seq<u8>, i: int) -> bool {
    &&& word_started(s, i)
    &&& (is_sep(s[i - 1]) || (is_upper(s[i]) && (is_lower(s[i - 1]) || (is_upper(s[i - 1]) && i + 1
    < s.len() && is_lower(s[i + 1])))))
}

/// The bytes that input position `i` contributes to the converted name.
pub open spec fn emitted(c: NamingConvention, s: Seq<u8>, i: int) -> Seq<u8> {
    if is_sep(s[i]) {
        Seq::empty()
    } else if word_break(s, i) {
        match c {
            NamingConvention::SnakeCase => seq![95u8, to_lower(s[i])],
            NamingConvention::ScreamingSnakeCase => seq![95u8, to_upper(s[i])],
            NamingConvention::KebabCase => seq![45u8, to_lower(s[i])],
            NamingConvention::ScreamingKebabCase => seq![45u8, to_upper(s[i])],
            NamingConvention::LowerCamelCase => seq![to_upper(s[i])],
            NamingConvention::UpperCamelCase => seq![to_upper(s[i])],
        }
    } else {
        match c {
            NamingConvention::SnakeCase => seq![to_lower(s[i])],
            NamingConvention::ScreamingSnakeCase => seq![to_upper(s[i])],
            NamingConvention::KebabCase => seq![to_lower(s[i])],
            NamingConvention::ScreamingKebabCase => seq![to_upper(s[i])],
            NamingConvention::LowerCamelCase => seq![to_lower(s[i])],
            NamingConvention::UpperCamelCase => if !word_started(s, i) {
                seq![to_upper(s[i])]
            } else {
                seq![to_lower(s[i])]
            },
        }
    }
}

/// The conversion of the first `n` bytes of `s`.
pub open spec fn convert_prefix(c: NamingConvention, s: Seq<u8>, n: int) -> Seq<u8>
    decreases n,
{
    if n <= 0 {
        Seq::empty()
    } else {
        convert_prefix(c, s, n - 1) + emitted(c, s, n - 1)
    }
}

/// The identifier `s` rendered in convention `c`.
pub open spec fn convert_spec(c: NamingConvention, s: Seq<u8>) -> Seq<u8> {
    convert_prefix(c, s, s.len() as int)
}

/// A raw-identifier escape prefix (`r#`) stripped, if present.
pub open spec fn strip_raw_spec(s: Seq<u8>) -> Seq<u8> {
    if s.len() >= 2 && s[0] == 114 && s[1] == 35 {
        s.skip(2)
    } else {
        s
    }
}

/// The conventions that render word breaks with a separator byte.
pub open spec fn sep_convention(c: NamingConvention) -> bool {
    c matches NamingConvention::SnakeCase || c matches NamingConvention::ScreamingSnakeCase
        || c matches NamingConvention::KebabCase || c matches NamingConvention::ScreamingKebabCase
}

/// The separator byte such a convention inserts.
pub open spec fn sep_byte(c: NamingConvention) -> u8 {
    match c {
        NamingConvention::KebabCase => 45,
        NamingConvention::ScreamingKebabCase => 45,
        _ => 95,
    }
}

/// Whether such a convention renders word bytes upper-case.
pub open spec fn upper_convention(c: NamingConvention) -> bool {
    c matches NamingConvention::ScreamingSnakeCase
        || c matches NamingConvention::ScreamingKebabCase
}

/// A byte such a convention can emit inside a word: never a separator, and
/// already in the convention's case.
pub open spec fn word_byte(c: NamingConvention, b: u8) -> bool {
    &&& !is_sep(b)
    &&& if upper_convention(c) {
        !is_lower(b)
    } else {
        !is_upper(b)
    }
}

/// The shape of a name already rendered in a separator convention: every
/// byte is the separator or a cased word byte, and every separator stands
/// strictly between two word bytes.
pub open spec fn canonical(c: NamingConvention, o: Seq<u8>) -> bool {
    &&& forall|k: int| 0 <= k < o.len() ==> o[k] == sep_byte(c) || word_byte(c, #[trigger] o[k])
    &&& forall|k: int|
        0 <= k < o.len() && #[trigger] o[k] == sep_byte(c) ==> 1 <= k && k + 1 < o.len() && o[k
            - 1] != sep_byte(c) && o[k + 1] != sep_byte(c)
}

/// Converting a canonical name under its own separator convention changes
/// nothing: separators are dropped and re-inserted in place, word bytes are
/// already cased.
proof fn lemma_identity_on_canonical_prefix(c: NamingConvention, o: Seq<u8>, n: int)
    requires
        sep_convention(c),
        canonical(c, o),
        0 <= n <= o.len(),
    ensures
        convert_prefix(c, o, n) == (if n > 0 && o[n - 1] == sep_byte(c) {
            o.take(n - 1)
        } else {
            o.take(n)
        }),
    decreases n,
{
    if n > 0 {
        lemma_identity_on_canonical_prefix(c, o, n - 1);
        if o[n - 1] == sep_byte(c) {
            assert(is_sep(o[n - 1]));
            assert(emitted(c, o, n - 1) =~= Seq::<u8>::empty());
            assert(o[n - 2] != sep_byte(c));
            assert(convert_prefix(c, o, n) =~= o.take(n - 1));
        } else {
            assert(word_byte(c, o[n - 1]));
            assert(!is_sep(o[n - 1]));
            if n >= 2 && o[n - 2] == sep_byte(c) {
                assert(is_sep(o[n - 2]));
                assert(word_byte(c, o[n - 3]));
                assert(word_started(o, n - 1));
                assert(word_break(o, n - 1));
                if upper_convention(c) {
                    assert(to_upper(o[n - 1]) == o[n - 1]);
                } else {
                    assert(to_lower(o[n - 1]) == o[n - 1]);
                }
                assert(emitted(c, o, n - 1) =~= seq![sep_byte(c), o[n - 1]]);
                assert(convert_prefix(c, o, n) =~= o.take(n));
            } else {
                if n >= 2 {
                    assert(word_byte(c, o[n - 2]));
                    assert(!is_sep(o[n - 2]));
                    if upper_convention(c) {
                        assert(!is_lower(o[n - 2]));
                        if n < o.len() {
                            assert(o[n] == sep_byte(c) || word_byte(c, o[n]));
                            assert(!is_lower(o[n]));
                        }
                        assert(!word_break(o, n - 1));
                    } else {
                        assert(!is_upper(o[n - 1]));
                        assert(!word_break(o, n - 1));
                    }
                } else {
                    assert(!word_started(o, 0));
                    assert(!word_break(o, 0));
                }
                if upper_convention(c) {
                    assert(to_upper(o[n - 1]) == o[n - 1]);
                } else {
                    assert(to_lower(o[n - 1]) == o[n - 1]);
                }
                assert(emitted(c, o, n - 1) =~= seq![o[n - 1]]);
                assert(convert_prefix(c, o, n) =~= o.take(n));
            }
        }
    } else {
        assert(convert_prefix(c, o, 0) =~= o.take(0));
    }
}

/// Each emitted word byte is cased and is no separator.
proof fn lemma_cased_is_word_byte(c: NamingConvention, b: u8)
    requires
        sep_convention(c),
        !is_sep(b),
    ensures
        upper_convention(c) ==> word_byte(c, to_upper(b)),
        !upper_convention(c) ==> word_byte(c, to_lower(b)),
{
}

/// What a separator convention produces is canonical.
proof fn lemma_output_is_canonical_prefix(c: NamingConvention, s: Seq<u8>, n: int)
    requires
        sep_convention(c),
        0 <= n <= s.len(),
    ensures
        canonical(c, convert_prefix(c, s, n)),
        convert_prefix(c, s, n).len() > 0 <==> word_started(s, n),
        convert_prefix(c, s, n).len() > 0 ==> convert_prefix(c, s, n).last() != sep_byte(c),
    decreases n,
{
    if n > 0 {
        lemma_output_is_canonical_prefix(c, s, n - 1);
        let pre = convert_prefix(c, s, n - 1);
        let o = convert_prefix(c, s, n);
        if is_sep(s[n - 1]) {
            assert(emitted(c, s, n - 1) =~= Seq::<u8>::empty());
            assert(o =~= pre);
            assert(word_started(s, n) ==> word_started(s, n - 1)) by {
                if word_started(s, n) {
                    let j = choose|j: int| 0 <= j < n && !is_sep(s[j]);
                    assert(j < n - 1);
                }
            }
        } else {
            lemma_cased_is_word_byte(c, s[n - 1]);
            assert(word_started(s, n));
            if word_break(s, n - 1) {
                assert(word_started(s, n - 1));
                assert(pre.len() > 0);
                assert(word_byte(c, pre.last()));
                let cased: u8 = if upper_convention(c) {
                    to_upper(s[n - 1])
                } else {
                    to_lower(s[n - 1])
                };
                assert(emitted(c, s, n - 1) =~= seq![sep_byte(c), cased]);
                assert(o =~= pre + seq![sep_byte(c), cased]);
                assert forall|k: int| 0 <= k < o.len() implies o[k] == sep_byte(c) || word_byte(
                    c,
                    #[trigger] o[k],
                ) by {
                    if k < pre.len() {
                        assert(pre[k] == sep_byte(c) || word_byte(c, pre[k]));
                    }
                }
                assert forall|k: int| 0 <= k < o.len() && #[trigger] o[k] == sep_byte(c) implies 1
                    <= k && k + 1 < o.len() && o[k - 1] != sep_byte(c) && o[k + 1] != sep_byte(c) by {
                    if k < pre.len() {
                        assert(pre[k] == sep_byte(c));
                    } else {
                        assert(k == pre.len());
                        assert(o[k - 1] == pre.last());
                        assert(!is_sep(pre.last()));
                        assert(word_byte(c, cased));
                    }
                }
            } else {
                let cased: u8 = if upper_convention(c) {
                    to_upper(s[n - 1])
                } else {
                    to_lower(s[n - 1])
                };
                assert(emitted(c, s, n - 1) =~= seq![cased]);
                assert(o =~= pre + seq![cased]);
                assert forall|k: int| 0 <= k < o.len() implies o[k] == sep_byte(c) || word_byte(
                    c,
                    #[trigger] o[k],
                ) by {
                    if k < pre.len() {
                        assert(pre[k] == sep_byte(c) || word_byte(c, pre[k]));
                    }
                }
                assert forall|k: int| 0 <= k < o.len() && #[trigger] o[k] == sep_byte(c) implies 1
                    <= k && k + 1 < o.len() && o[k - 1] != sep_byte(c) && o[k + 1] != sep_byte(c) by {
                    assert(k < pre.len());
                    assert(pre[k] == sep_byte(c));
                }
            }
        }
    }
}

/// Applying a separator convention twice yields what applying it once does:
/// the conversion is idempotent.  (The camel conventions drop separators
/// altogether, so a one-letter word loses its boundary and they are not
/// idempotent in general.)
pub proof fn lemma_separator_conventions_idempotent(c: NamingConvention, s: Seq<u8>)
    requires
        sep_convention(c),
    ensures
        convert_spec(c, convert_spec(c, s)) == convert_spec(c, s),
{
    let o = convert_spec(c, s);
    lemma_output_is_canonical_prefix(c, s, s.len() as int);
    lemma_identity_on_canonical_prefix(c, o, o.len() as int);
    if o.len() > 0 {
        assert(o[o.len() - 1] != sep_byte(c));
    }
    assert(o.take(o.len() as int) =~= o);
}

fn is_sep_ex(b: u8) -> (r: bool)
    ensures
        r == is_sep(b),
{
    b == 95 || b == 45
}

fn is_upper_ex(b: u8) -> (r: bool)
    ensures
        r == is_upper(b),
{
    65 <= b && b <= 90
}

fn is_lower_ex(b: u8) -> (r: bool)
    ensures
        r == is_lower(b),
{
    97 <= b && b <= 122
}

/// Convert an identifier to the given naming convention.
pub fn rename_all(name: &Vec<u8>, convention: NamingConvention) -> (out: Vec<u8>)
    ensures
        out@ == convert_spec(convention, name@),
{
    let mut out: Vec<u8> = Vec::new();
    let mut started: bool = false;
    let mut i: usize = 0;
    while i < name.len()
        invariant
            i <= name.len(),
            started == word_started(name@, i as int),
            out@ == convert_prefix(convention, name@, i as int),
        decreases name.len() - i,
    {
        let b = name[i];
        if is_sep_ex(b) {
            proof {
                assert(word_started(name@, i + 1) ==> word_started(name@, i as int)) by {
                    if word_started(name@, i + 1) {
                        let j = choose|j: int| 0 <= j < i + 1 && !is_sep(name@[j]);
                        assert(j < i);
                    }
                }
            }
        } else {
            let at_break: bool = if !started {
                false
            } else {
                proof {
                    assert(i >= 1);
                }
                let p = name[i - 1];
                if is_sep_ex(p) {
                    true
                } else if is_upper_ex(b) {
                    if is_lower_ex(p) {
                        true
                    } else if is_upper_ex(p) && i + 1 < name.len() {
                        is_lower_ex(name[i + 1])
                    } else {
                        false
                    }
                } else {
                    false
                }
            };
            proof {
                assert(at_break == word_break(name@, i as int));
            }
            let lower_b: u8 = if is_upper_ex(b) {
                b + 32
            } else {
                b
            };
            let upper_b: u8 = if is_lower_ex(b) {
                b - 32
            } else {
                b
            };
            match convention {
                NamingConvention::SnakeCase => {
                    if at_break {
                        out.push(95);
                    }
                    out.push(lower_b);
                },
                NamingConvention::ScreamingSnakeCase => {
                    if at_break {
                        out.push(95);
                    }
                    out.push(upper_b);
                },
                NamingConvention::KebabCase => {
                    if at_break {
                        out.push(45);
                    }
                    out.push(lower_b);
                },
                NamingConvention::ScreamingKebabCase => {
                    if at_break {
                        out.push(45);
                    }
                    out.push(upper_b);
                },
                NamingConvention::LowerCamelCase => {
                    if at_break {
                        out.push(upper_b);
                    } else {
                        out.push(lower_b);
                    }
                },
                NamingConvention::UpperCamelCase => {
                    if at_break || !started {
                        out.push(upper_b);
                    } else {
                        out.push(lower_b);
                    }
                },
            }
            started = true;
            proof {
                assert(word_started(name@, i + 1));
            }
        }
        proof {
            assert(out@ =~= convert_prefix(convention, name@, i + 1));
        }
        i = i + 1;
    }
    out
}

/// Strip a raw-identifier escape prefix from an identifier.
pub fn strip_raw(name: &Vec<u8>) -> (out: Vec<u8>)
    ensures
        out@ == strip_raw_spec(name@),
{
    let start: usize = if name.len() >= 2 && name[0] == 114 && name[1] == 35 {
        2
    } else {
        0
    };
    let mut out: Vec<u8> = Vec::new();
    let mut i: usize = start;
    while i < name.len()
        invariant
            start <= i <= name.len(),
            out@ == name@.subrange(start as int, i as int),
        decreases name.len() - i,
    {
        out.push(name[i]);
        proof {
            assert(out@ =~= name@.subrange(start as int, i + 1));
        }
        i = i + 1;
    }
    proof {
        assert(out@ =~= strip_raw_spec(name@));
    }
    out
}

} // verus!
