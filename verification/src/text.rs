//! Text, seen as sequences of characters.

use vstd::prelude::*;
use vstd::std_specs::iter::IteratorSpec;
use vstd::string::StrSliceExecFns;

verus! {

/// Whether `c` is white space as Unicode defines it (`White_Space`).
pub open spec fn is_whitespace(c: char) -> bool {
    let u = c as u32;
    ||| 0x09 <= u <= 0x0d
    ||| u == 0x20
    ||| u == 0x85
    ||| u == 0xa0
    ||| u == 0x1680
    ||| 0x2000 <= u <= 0x200a
    ||| u == 0x2028
    ||| u == 0x2029
    ||| u == 0x202f
    ||| u == 0x205f
    ||| u == 0x3000
}

/// `s` without its leading white space.
pub open spec fn trim_start(s: Seq<char>) -> Seq<char>
    decreases s.len(),
{
    if s.len() > 0 && is_whitespace(s.first()) {
        trim_start(s.drop_first())
    } else {
        s
    }
}

/// `s` without its trailing white space.
pub open spec fn trim_end(s: Seq<char>) -> Seq<char>
    decreases s.len(),
{
    if s.len() > 0 && is_whitespace(s.last()) {
        trim_end(s.drop_last())
    } else {
        s
    }
}

/// `s` without the white space at either end.
pub open spec fn trimmed(s: Seq<char>) -> Seq<char> {
    trim_end(trim_start(s))
}

/// `s` with every space replaced by an underscore.
pub open spec fn underscored(s: Seq<char>) -> Seq<char> {
    Seq::new(s.len(), |i: int| if s[i] == ' ' { '_' } else { s[i] })
}

/// Whether `s` ends with `suffix`, character for character.
pub open spec fn ends_with(s: Seq<char>, suffix: Seq<char>) -> bool {
    suffix.len() <= s.len() && s.skip(s.len() - suffix.len()) == suffix
}

/// Suffix matching knows no word boundary: `s` ends with `suffix` exactly when
/// `s` is some text followed by `suffix`.
pub proof fn lemma_ends_with_is_exact(s: Seq<char>, suffix: Seq<char>)
    ensures
        ends_with(s, suffix) <==> exists|head: Seq<char>| s == head + suffix,
{
    if ends_with(s, suffix) {
        let head = s.take(s.len() - suffix.len());
        assert(s =~= head + suffix);
    }
    if exists|head: Seq<char>| s == head + suffix {
        let head = choose|head: Seq<char>| s == head + suffix;
        assert(s.skip(s.len() - suffix.len()) =~= suffix);
    }
}

/// Whether `c` is white space as Unicode defines it.
pub fn char_is_whitespace(c: char) -> (b: bool)
    ensures
        b == is_whitespace(c),
{
    let u: u32 = c as u32;
    (0x09 <= u && u <= 0x0d) || u == 0x20 || u == 0x85 || u == 0xa0 || u == 0x1680 || (0x2000 <= u
        && u <= 0x200a) || u == 0x2028 || u == 0x2029 || u == 0x202f || u == 0x205f || u == 0x3000
}

/// The characters of `s`, in order.
pub fn chars_of(s: &str) -> (out: Vec<char>)
    ensures
        out@ == s@,
{
    broadcast use vstd::string::group_string_axioms;

    let mut out: Vec<char> = Vec::new();
    let mut it = s.chars();
    loop
        invariant
            it.obeys_prophetic_iter_laws(),
            it.decrease() is Some,
            out@ + it.remaining() == s@,
        ensures
            out@ == s@,
        decreases it.decrease()->0,
    {
        match it.next() {
            Some(c) => {
                out.push(c);
            },
            None => {
                break ;
            },
        }
    }
    out
}

/// White space in front can be skipped before the rest is trimmed.
proof fn lemma_trim_start_skip(s: Seq<char>, a: int)
    requires
        0 <= a <= s.len(),
        forall|k: int| 0 <= k < a ==> is_whitespace(s[k]),
    ensures
        trim_start(s) == trim_start(s.skip(a)),
    decreases a,
{
    if a == 0 {
        assert(s.skip(0) =~= s);
    } else {
        lemma_trim_start_skip(s, a - 1);
        assert(s.skip(a - 1).drop_first() =~= s.skip(a));
    }
}

/// White space at the end can be cut off before the rest is trimmed.
proof fn lemma_trim_end_take(s: Seq<char>, b: int)
    requires
        0 <= b <= s.len(),
        forall|k: int| b <= k < s.len() ==> is_whitespace(s[k]),
    ensures
        trim_end(s) == trim_end(s.take(b)),
    decreases s.len() - b,
{
    if b == s.len() {
        assert(s.take(b) =~= s);
    } else {
        lemma_trim_end_take(s, b + 1);
        assert(s.take(b + 1).drop_last() =~= s.take(b));
    }
}

/// `s` without the white space at either end.
pub fn trim(s: &str) -> (t: &str)
    ensures
        t@ == trimmed(s@),
{
    let chars = chars_of(s);
    let n: usize = chars.len();
    let mut a: usize = 0;
    while a < n && char_is_whitespace(chars[a])
        invariant
            a <= n == chars.len(),
            forall|k: int| 0 <= k < a ==> is_whitespace(chars@[k]),
        decreases n - a,
    {
        a += 1;
    }
    let mut b: usize = n;
    while b > a && char_is_whitespace(chars[b - 1])
        invariant
            a <= b <= n == chars.len(),
            forall|k: int| b <= k < n ==> is_whitespace(chars@[k]),
        decreases b,
    {
        b -= 1;
    }
    proof {
        let rest = chars@.skip(a as int);
        lemma_trim_start_skip(chars@, a as int);
        assert(trim_start(rest) == rest);
        lemma_trim_end_take(rest, b - a);
        assert(rest.take(b - a) =~= chars@.subrange(a as int, b as int));
        assert(trim_end(rest.take(b - a)) == rest.take(b - a));
    }
    s.substring_char(a, b)
}

/// `s` with every space replaced by an underscore.
pub fn underscore(s: &[char]) -> (out: Vec<char>)
    ensures
        out@ == underscored(s@),
{
    let mut out: Vec<char> = Vec::new();
    let mut i: usize = 0;
    while i < s.len()
        invariant
            i <= s.len(),
            out@ == underscored(s@).take(i as int),
        decreases s.len() - i,
    {
        let c = s[i];
        out.push(if c == ' ' { '_' } else { c });
        i += 1;
        assert(out@ =~= underscored(s@).take(i as int));
    }
    assert(underscored(s@).take(i as int) =~= underscored(s@));
    out
}

/// Whether `s` ends with `suffix`, character for character.
pub fn has_suffix(s: &[char], suffix: &[char]) -> (b: bool)
    ensures
        b == ends_with(s@, suffix@),
{
    if suffix.len() > s.len() {
        return false;
    }
    let shift: usize = s.len() - suffix.len();
    let mut i: usize = 0;
    while i < suffix.len()
        invariant
            i <= suffix.len(),
            shift + suffix.len() == s.len(),
            forall|k: int| 0 <= k < i ==> s@[shift + k] == suffix@[k],
        decreases suffix.len() - i,
    {
        if s[shift + i] != suffix[i] {
            assert(s@.skip(shift as int)[i as int] != suffix@[i as int]);
            return false;
        }
        i += 1;
    }
    assert(s@.skip(shift as int) =~= suffix@);
    true
}

} // verus!
