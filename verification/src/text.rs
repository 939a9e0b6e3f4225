//! Text as sequences of characters: prefixes, case folding and the
//! lexicographic order that listings are sorted by.

use vstd::prelude::*;
use vstd::std_specs::iter::IteratorSpec;

verus! {

/// The lowercase form of a text, as `str::to_lowercase` computes it from the
/// Unicode case mappings.
pub uninterp spec fn lowercased(text: Seq<char>) -> Seq<char>;

/// Trusted: calls `str::to_lowercase`. The contract only gives the result its
/// name, [`lowercased`]; nothing is claimed about which characters it holds.
#[verifier::external_body]
pub(crate) fn to_lowercase(text: &str) -> (lowered: String)
    ensures
        lowered@ == lowercased(text@),
{
    text.to_lowercase()
}

/// The characters of `text`, collected into a vector.
pub fn to_chars(text: &str) -> (chars: Vec<char>)
    ensures
        chars@ == text@,
{
    let mut chars: Vec<char> = Vec::new();
    for c in it: text.chars()
        invariant
            it.seq() == text@,
            chars@ == text@.take(it.index() as int),
    {
        chars.push(c);
    }
    chars
}

/// The characters of the lowercase form of `text`.
pub fn fold_case(text: &str) -> (folded: Vec<char>)
    ensures
        folded@ == lowercased(text@),
{
    let lowered = to_lowercase(text);
    to_chars(lowered.as_str())
}

/// Tells whether `text` begins with `prefix`.
pub fn starts_with(text: &str, prefix: &str) -> (found: bool)
    ensures
        found == prefix@.is_prefix_of(text@),
{
    let mut rest = text.chars();
    let ghost mut matched: int = 0;
    for p in it: prefix.chars()
        invariant
            it.seq() == prefix@,
            matched == it.index(),
            matched <= text@.len(),
            rest.remaining() == text@.skip(matched),
            rest.obeys_prophetic_iter_laws(),
            forall|j: int| 0 <= j < matched ==> text@[j] == prefix@[j],
    {
        match rest.next() {
            Some(t) => {
                if t != p {
                    assert(text@[matched] != prefix@[matched]);
                    return false;
                }
                proof {
                    assert(text@.skip(matched).drop_first() == text@.skip(matched + 1));
                    matched = matched + 1;
                }
            },
            None => {
                return false;
            },
        }
    }
    assert(prefix@ =~= text@.subrange(0, prefix@.len() as int));
    true
}

/// Tells whether `a` and `b` are the same text.
pub fn same_text(a: &str, b: &str) -> (same: bool)
    ensures
        same == (a@ == b@),
{
    let same = starts_with(a, b) && starts_with(b, a);
    proof {
        if same {
            assert(a@ =~= b@);
        }
    }
    same
}

/// `a` and `b` hold the same characters at every position below `end`.
pub open spec fn agree_below(a: Seq<char>, b: Seq<char>, end: int) -> bool {
    forall|j: int| 0 <= j < end ==> a[j] == b[j]
}

/// `a` and `b` agree below position `at`, where `a` holds the smaller character.
pub open spec fn smaller_at(a: Seq<char>, b: Seq<char>, at: int) -> bool {
    &&& 0 <= at < a.len()
    &&& at < b.len()
    &&& agree_below(a, b, at)
    &&& (a[at] as int) < (b[at] as int)
}

/// Lexicographic order by character value: `a` is a prefix of `b`, or `a`
/// holds the smaller character at the first position where the two differ.
pub open spec fn lex_le(a: Seq<char>, b: Seq<char>) -> bool {
    ||| a.len() <= b.len() && agree_below(a, b, a.len() as int)
    ||| exists|at: int| smaller_at(a, b, at)
}

/// Any two texts are comparable.
pub proof fn lemma_lex_le_total(a: Seq<char>, b: Seq<char>)
    ensures
        lex_le(a, b) || lex_le(b, a),
{
    let limit = if a.len() <= b.len() { a.len() as int } else { b.len() as int };
    let at = first_difference(a, b, limit);
    if at < limit {
        if (a[at] as int) < (b[at] as int) {
            assert(smaller_at(a, b, at));
        } else {
            assert(smaller_at(b, a, at));
        }
    }
}

/// The order is transitive.
pub proof fn lemma_lex_le_transitive(a: Seq<char>, b: Seq<char>, c: Seq<char>)
    requires
        lex_le(a, b),
        lex_le(b, c),
    ensures
        lex_le(a, c),
{
    if exists|at: int| smaller_at(a, b, at) {
        let i = choose|at: int| smaller_at(a, b, at);
        if exists|at: int| smaller_at(b, c, at) {
            let j = choose|at: int| smaller_at(b, c, at);
            let k = if i <= j { i } else { j };
            assert(smaller_at(a, c, k));
        } else {
            assert(smaller_at(a, c, i));
        }
    } else if exists|at: int| smaller_at(b, c, at) {
        let j = choose|at: int| smaller_at(b, c, at);
        if j < a.len() {
            assert(smaller_at(a, c, j));
        }
    }
}

/// Texts that compare both ways are the same text.
pub proof fn lemma_lex_le_antisymmetric(a: Seq<char>, b: Seq<char>)
    requires
        lex_le(a, b),
        lex_le(b, a),
    ensures
        a == b,
{
    if exists|at: int| smaller_at(a, b, at) {
        let i = choose|at: int| smaller_at(a, b, at);
        if exists|at: int| smaller_at(b, a, at) {
            let j = choose|at: int| smaller_at(b, a, at);
            assert(a[i] == b[i] || a[j] == b[j]);
        }
    } else if exists|at: int| smaller_at(b, a, at) {
        let j = choose|at: int| smaller_at(b, a, at);
    } else {
        assert(a =~= b);
    }
}

/// The first position below `limit` at which `a` and `b` differ, or `limit`.
proof fn first_difference(a: Seq<char>, b: Seq<char>, limit: int) -> (at: int)
    requires
        0 <= limit <= a.len(),
        limit <= b.len(),
    ensures
        0 <= at <= limit,
        agree_below(a, b, at),
        at < limit ==> a[at] != b[at],
    decreases limit,
{
    if limit == 0 {
        0
    } else {
        let at = first_difference(a, b, limit - 1);
        if at == limit - 1 && a[at] == b[at] {
            limit
        } else {
            at
        }
    }
}

/// Decides [`lex_le`].
pub fn lex_le_chars(a: &Vec<char>, b: &Vec<char>) -> (le: bool)
    ensures
        le == lex_le(a@, b@),
{
    let mut i: usize = 0;
    while i < a.len() && i < b.len()
        invariant
            i <= a.len(),
            i <= b.len(),
            agree_below(a@, b@, i as int),
        decreases a.len() - i,
    {
        if a[i] != b[i] {
            let le = a[i] < b[i];
            proof {
                if le {
                    assert(smaller_at(a@, b@, i as int));
                } else {
                    assert forall|at: int| !smaller_at(a@, b@, at) by {
                        if smaller_at(a@, b@, at) && at > i {
                            assert(a@[i as int] == b@[i as int]);
                        }
                    }
                }
            }
            return le;
        }
        i += 1;
    }
    proof {
        if a.len() > b.len() {
            assert forall|at: int| !smaller_at(a@, b@, at) by {}
        }
    }
    a.len() <= b.len()
}

/// The view of an optional text.
pub open spec fn option_view(text: Option<String>) -> Option<Seq<char>> {
    match text {
        Some(t) => Some(t@),
        None => None,
    }
}

/// `at` is the position of the last `.` in `name`.
pub open spec fn is_last_dot(name: Seq<char>, at: int) -> bool {
    &&& 0 <= at < name.len()
    &&& name[at] == '.'
    &&& forall|j: int| at < j < name.len() ==> name[j] != '.'
}

/// The extension of a file name: what follows its last `.`, where that `.` is
/// not the first character. A name without such a `.` has none, and neither
/// has the name `..`.
pub open spec fn spec_extension(name: Seq<char>) -> Option<Seq<char>> {
    if name =~= seq!['.', '.'] || !exists|at: int| 0 < at && is_last_dot(name, at) {
        None
    } else {
        let at = choose|at: int| 0 < at && is_last_dot(name, at);
        Some(name.skip(at + 1))
    }
}

/// The extension of the file name `name`.
pub fn file_extension(name: &str) -> (extension: Option<String>)
    ensures
        option_view(extension) == spec_extension(name@),
{
    let len = name.unicode_len();
    let mut seen: usize = 0;
    let mut last_dot: Option<usize> = None;
    for c in it: name.chars()
        invariant
            it.seq() == name@,
            len == name@.len(),
            seen == it.index(),
            match last_dot {
                Some(at) => at < seen && name@[at as int] == '.' && forall|j: int|
                    at < j < seen ==> name@[j] != '.',
                None => forall|j: int| 0 <= j < seen ==> name@[j] != '.',
            },
    {
        if c == '.' {
            last_dot = Some(seen);
        }
        seen += 1;
    }
    match last_dot {
        Some(at) => {
            assert(is_last_dot(name@, at as int));
            assert forall|other: int| is_last_dot(name@, other) implies other == at by {}
            if at == 0 || (len == 2 && at == 1 && name.get_char(0) == '.') {
                assert(name@ =~= seq!['.', '.'] || at == 0);
                None
            } else {
                assert(!(name@ =~= seq!['.', '.'])) by {
                    if name@ =~= seq!['.', '.'] {
                        assert(name@[0] == '.');
                    }
                }
                let tail = name.substring_char(at + 1, len);
                assert(tail@ =~= name@.skip(at as int + 1));
                Some(tail.to_owned())
            }
        },
        None => {
            assert forall|other: int| !is_last_dot(name@, other) by {}
            None
        },
    }
}

} // verus!
