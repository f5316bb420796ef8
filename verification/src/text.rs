//! Verified helpers on text: decimal rendering of integers and substring
//! search, each with an exact specification over sequences of characters.

use vstd::prelude::*;
use vstd::string::StrSliceExecFns;
use vstd::string::StringExecFns;

verus! {

/// The character for one decimal digit.
pub open spec fn spec_digit(d: nat) -> char {
    if d == 0 {
        '0'
    } else if d == 1 {
        '1'
    } else if d == 2 {
        '2'
    } else if d == 3 {
        '3'
    } else if d == 4 {
        '4'
    } else if d == 5 {
        '5'
    } else if d == 6 {
        '6'
    } else if d == 7 {
        '7'
    } else if d == 8 {
        '8'
    } else {
        '9'
    }
}

/// The decimal rendering of `n`: most significant digit first, no leading
/// zeroes, a single `'0'` for zero.
pub open spec fn spec_digits(n: nat) -> Seq<char>
    decreases n,
{
    if n < 10 {
        seq![spec_digit(n)]
    } else {
        spec_digits(n / 10).push(spec_digit(n % 10))
    }
}

fn digit_str(d: u64) -> (s: &'static str)
    requires
        d < 10,
    ensures
        s@ == seq![spec_digit(d as nat)],
{
    proof {
        reveal_strlit("0");
        reveal_strlit("1");
        reveal_strlit("2");
        reveal_strlit("3");
        reveal_strlit("4");
        reveal_strlit("5");
        reveal_strlit("6");
        reveal_strlit("7");
        reveal_strlit("8");
        reveal_strlit("9");
        assert("0"@ =~= seq!['0']);
        assert("1"@ =~= seq!['1']);
        assert("2"@ =~= seq!['2']);
        assert("3"@ =~= seq!['3']);
        assert("4"@ =~= seq!['4']);
        assert("5"@ =~= seq!['5']);
        assert("6"@ =~= seq!['6']);
        assert("7"@ =~= seq!['7']);
        assert("8"@ =~= seq!['8']);
        assert("9"@ =~= seq!['9']);
    }
    match d {
        0 => "0",
        1 => "1",
        2 => "2",
        3 => "3",
        4 => "4",
        5 => "5",
        6 => "6",
        7 => "7",
        8 => "8",
        _ => "9",
    }
}

/// Render `n` in decimal.
pub fn u64_to_string(n: u64) -> (s: String)
    ensures
        s@ == spec_digits(n as nat),
    decreases n,
{
    if n < 10 {
        digit_str(n).to_owned()
    } else {
        let mut s = u64_to_string(n / 10);
        s.append(digit_str(n % 10));
        proof {
            assert(s@ =~= spec_digits((n / 10) as nat).push(spec_digit((n % 10) as nat)));
        }
        s
    }
}

/// The characters of `s`, one vector element per character.
pub fn chars_vec(s: &str) -> (v: Vec<char>)
    ensures
        v@ == s@,
{
    let n = s.unicode_len();
    let mut v: Vec<char> = Vec::new();
    let mut i: usize = 0;
    while i < n
        invariant
            n == s@.len(),
            i <= n,
            v@ == s@.subrange(0, i as int),
        decreases n - i,
    {
        v.push(s.get_char(i));
        i = i + 1;
        proof {
            assert(v@ =~= s@.subrange(0, i as int));
        }
    }
    proof {
        assert(v@ =~= s@);
    }
    v
}

/// Character-wise equality of two strings.
pub fn str_eq(a: &str, b: &str) -> (r: bool)
    ensures
        r == (a@ == b@),
{
    let av = chars_vec(a);
    let bv = chars_vec(b);
    if av.len() != bv.len() {
        return false;
    }
    let n = av.len();
    let mut i: usize = 0;
    while i < n
        invariant
            av@ == a@,
            bv@ == b@,
            n == av@.len(),
            n == bv@.len(),
            i <= n,
            forall|k: int| 0 <= k < i ==> a@[k] == b@[k],
        decreases n - i,
    {
        if av[i] != bv[i] {
            return false;
        }
        i = i + 1;
    }
    proof {
        assert(a@ =~= b@);
    }
    true
}

/// Whether `needle` occurs in `haystack` as a contiguous run of characters.
/// The empty needle occurs in every haystack.
pub open spec fn spec_contains(haystack: Seq<char>, needle: Seq<char>) -> bool {
    exists|i: int|
        0 <= i <= haystack.len() - needle.len() && #[trigger] haystack.subrange(
            i,
            i + needle.len() as int,
        ) == needle
}

/// Substring search: whether `needle` occurs in `haystack`.
pub fn str_contains(haystack: &str, needle: &str) -> (r: bool)
    ensures
        r == spec_contains(haystack@, needle@),
{
    let h = chars_vec(haystack);
    let n = chars_vec(needle);
    if n.len() > h.len() {
        return false;
    }
    let last = h.len() - n.len();
    let mut i: usize = 0;
    while i <= last
        invariant
            h@ == haystack@,
            n@ == needle@,
            n.len() <= h.len(),
            last == h.len() - n.len(),
            i <= last + 1,
            forall|k: int|
                0 <= k < i ==> #[trigger] haystack@.subrange(k, k + needle@.len() as int)
                    != needle@,
        decreases last + 1 - i,
    {
        let mut j: usize = 0;
        let mut hit = true;
        while hit && j < n.len()
            invariant
                h@ == haystack@,
                n@ == needle@,
                i + n.len() <= h.len(),
                j <= n.len(),
                hit ==> forall|t: int| 0 <= t < j ==> #[trigger] haystack@[i + t]
                    == needle@[t],
                !hit ==> exists|t: int|
                    0 <= t < needle@.len() && #[trigger] haystack@[i + t] != needle@[t],
            decreases n.len() - j, (if hit {
                1int
            } else {
                0int
            }),
        {
            if h[i + j] != n[j] {
                proof {
                    assert(haystack@[i + j as int] != needle@[j as int]);
                }
                hit = false;
            } else {
                j = j + 1;
            }
        }
        if hit {
            proof {
                assert forall|t: int| 0 <= t < needle@.len() implies haystack@.subrange(
                    i as int,
                    i + needle@.len() as int,
                )[t] == needle@[t] by {
                    assert(haystack@[i + t] == needle@[t]);
                }
                assert(haystack@.subrange(i as int, i + needle@.len() as int) =~= needle@);
            }
            return true;
        }
        proof {
            assert(haystack@.subrange(i as int, i + needle@.len() as int) != needle@) by {
                if haystack@.subrange(i as int, i + needle@.len() as int) == needle@ {
                    let t = choose|t: int|
                        0 <= t < needle@.len() && #[trigger] haystack@[i + t] != needle@[t];
                    assert(haystack@.subrange(i as int, i + needle@.len() as int)[t]
                        == haystack@[i + t]);
                }
            }
        }
        i = i + 1;
    }
    proof {
        assert(!spec_contains(haystack@, needle@)) by {
            if spec_contains(haystack@, needle@) {
                let k = choose|k: int|
                    0 <= k <= haystack@.len() - needle@.len() && #[trigger] haystack@.subrange(
                        k,
                        k + needle@.len() as int,
                    ) == needle@;
                assert(k < i);
            }
        }
    }
    false
}

} // verus!
