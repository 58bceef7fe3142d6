//! Socket path generation.
//!
//! A generated rendezvous path lives under the system temporary directory and
//! encodes the current time in seconds together with a random token:
//! `<tmp>/.rust-unix-ipc.<seconds>-<token>.sock`. Distinct `(seconds, token)`
//! pairs always yield distinct paths, so a collision between two endpoints
//! generated in the same second needs the same random token.

use vstd::prelude::*;
use vstd::string::StringExecFns;

verus! {

/// The character for one decimal digit.
pub open spec fn spec_digit(d: nat) -> char
    recommends
        d < 10,
{
    if d == 0 {
        '0'
    } else if d == 1 {
        '1'
    } else if d == 2 {
        '2'
    } else if d == 3 {
        '3'
    } else if d == 4 {
        '4'
    } else if d == 5 {
        '5'
    } else if d == 6 {
        '6'
    } else if d == 7 {
        '7'
    } else if d == 8 {
        '8'
    } else {
        '9'
    }
}

pub open spec fn is_decimal_digit(c: char) -> bool {
    c == '0' || c == '1' || c == '2' || c == '3' || c == '4' || c == '5' || c == '6' || c == '7'
        || c == '8' || c == '9'
}

/// The usual decimal rendering of `n`, most significant digit first, with no
/// leading zeros (except for `n == 0` itself).
pub open spec fn spec_decimal(n: nat) -> Seq<char>
    decreases n,
{
    if n < 10 {
        seq![spec_digit(n)]
    } else {
        spec_decimal(n / 10).push(spec_digit(n % 10))
    }
}

/// The one-character string for a single digit.
fn digit_str(d: u64) -> (s: &'static str)
    requires
        d < 10,
    ensures
        s@ == seq![spec_digit(d as nat)],
{
    proof {
        reveal_strlit("0");
        reveal_strlit("1");
        reveal_strlit("2");
        reveal_strlit("3");
        reveal_strlit("4");
        reveal_strlit("5");
        reveal_strlit("6");
        reveal_strlit("7");
        reveal_strlit("8");
        reveal_strlit("9");
    }
    if d == 0 {
        "0"
    } else if d == 1 {
        "1"
    } else if d == 2 {
        "2"
    } else if d == 3 {
        "3"
    } else if d == 4 {
        "4"
    } else if d == 5 {
        "5"
    } else if d == 6 {
        "6"
    } else if d == 7 {
        "7"
    } else if d == 8 {
        "8"
    } else {
        "9"
    }
}

/// Renders `n` in decimal.
pub fn u64_to_decimal(n: u64) -> (s: String)
    ensures
        s@ == spec_decimal(n as nat),
    decreases n,
{
    if n < 10 {
        let s = String::from_str(digit_str(n));
        proof {
            assert(s@ =~= spec_decimal(n as nat));
        }
        s
    } else {
        let mut s = u64_to_decimal(n / 10);
        s.append(digit_str(n % 10));
        proof {
            assert(s@ =~= spec_decimal(n as nat));
        }
        s
    }
}

/// A decimal rendering is never empty, and needs one character per digit.
pub proof fn lemma_decimal_len(n: nat)
    ensures
        spec_decimal(n).len() >= 1,
        n < 10 ==> spec_decimal(n).len() == 1,
        n >= 10 ==> spec_decimal(n).len() >= 2,
    decreases n,
{
    if n >= 10 {
        lemma_decimal_len(n / 10);
    }
}

/// Every character of a decimal rendering is a digit.
pub proof fn lemma_decimal_all_digits(n: nat)
    ensures
        forall|i: int|
            0 <= i < spec_decimal(n).len() ==> is_decimal_digit(#[trigger] spec_decimal(n)[i]),
    decreases n,
{
    if n < 10 {
        assert(spec_decimal(n)[0] == spec_digit(n));
    } else {
        lemma_decimal_all_digits(n / 10);
        let rest = spec_decimal(n / 10);
        assert forall|i: int|
            0 <= i < spec_decimal(n).len() implies is_decimal_digit(
            #[trigger] spec_decimal(n)[i],
        ) by {
            if i < rest.len() {
                assert(spec_decimal(n)[i] == rest[i]);
            } else {
                assert(spec_decimal(n)[i] == spec_digit(n % 10));
            }
        }
    }
}

/// Distinct digits render as distinct characters.
pub proof fn lemma_digit_injective(x: nat, y: nat)
    requires
        x < 10,
        y < 10,
        spec_digit(x) == spec_digit(y),
    ensures
        x == y,
{
}

/// Distinct values have distinct decimal renderings.
pub proof fn lemma_decimal_injective(a: nat, b: nat)
    requires
        spec_decimal(a) == spec_decimal(b),
    ensures
        a == b,
    decreases a,
{
    lemma_decimal_len(a);
    lemma_decimal_len(b);
    if a < 10 && b < 10 {
        assert(spec_decimal(a)[0] == spec_digit(a));
        assert(spec_decimal(b)[0] == spec_digit(b));
        lemma_digit_injective(a, b);
    } else if a < 10 || b < 10 {
        // one rendering has one character, the other at least two
        assert(spec_decimal(a).len() == spec_decimal(b).len());
        assert(false);
    } else {
        assert(spec_decimal(a).last() == spec_digit(a % 10));
        assert(spec_decimal(b).last() == spec_digit(b % 10));
        lemma_digit_injective(a % 10, b % 10);
        assert(spec_decimal(a).drop_last() =~= spec_decimal(a / 10));
        assert(spec_decimal(b).drop_last() =~= spec_decimal(b / 10));
        assert(spec_decimal(a / 10) == spec_decimal(b / 10));
        lemma_decimal_injective(a / 10, b / 10);
        assert(a == 10 * (a / 10) + a % 10) by {
            vstd::arithmetic::div_mod::lemma_fundamental_div_mod(a as int, 10);
        };
        assert(b == 10 * (b / 10) + b % 10) by {
            vstd::arithmetic::div_mod::lemma_fundamental_div_mod(b as int, 10);
        };
    }
}

/// The file name of a generated rendezvous socket:
/// `.rust-unix-ipc.<seconds>-<token>.sock`.
pub open spec fn spec_socket_file_name(secs: nat, token: nat) -> Seq<char> {
    ".rust-unix-ipc."@ + spec_decimal(secs) + "-"@ + spec_decimal(token) + ".sock"@
}

/// A generated rendezvous path: the socket file name placed under the given
/// directory (written without a trailing separator).
pub open spec fn spec_generated_path(dir: Seq<char>, secs: nat, token: nat) -> Seq<char> {
    dir + "/"@ + spec_socket_file_name(secs, token)
}

/// Generated socket file names collide only when both the second and the
/// random token collide: distinct `(seconds, token)` pairs give distinct
/// names. With a fresh random token per construction, endpoints generated
/// within the same second still get pairwise distinct paths unless the
/// tokens themselves collide.
pub proof fn lemma_socket_file_name_injective(s1: nat, t1: nat, s2: nat, t2: nat)
    requires
        spec_socket_file_name(s1, t1) == spec_socket_file_name(s2, t2),
    ensures
        s1 == s2,
        t1 == t2,
{
    reveal_strlit(".rust-unix-ipc.");
    reveal_strlit("-");
    reveal_strlit(".sock");
    let p = ".rust-unix-ipc."@;
    let d = "-"@;
    let a1 = spec_decimal(s1);
    let b1 = spec_decimal(t1);
    let a2 = spec_decimal(s2);
    let b2 = spec_decimal(t2);
    let f1 = spec_socket_file_name(s1, t1);
    let f2 = spec_socket_file_name(s2, t2);
    lemma_decimal_len(s1);
    lemma_decimal_len(t1);
    lemma_decimal_len(s2);
    lemma_decimal_len(t2);
    lemma_decimal_all_digits(s1);
    lemma_decimal_all_digits(s2);
    assert(p.len() == 15);
    assert(d.len() == 1 && d[0] == '-');
    assert(f1.len() == 21 + a1.len() + b1.len());
    assert(f2.len() == 21 + a2.len() + b2.len());
    // The separator after the seconds is not a digit, so the two renderings
    // of the seconds have the same length.
    assert(a1.len() == a2.len()) by {
        if a1.len() < a2.len() {
            let i = 15 + a1.len() as int;
            assert(f1[i] == d[0]);
            assert(f2[i] == a2[a1.len() as int]);
            assert(is_decimal_digit(a2[a1.len() as int]));
            assert(false);
        } else if a2.len() < a1.len() {
            let i = 15 + a2.len() as int;
            assert(f2[i] == d[0]);
            assert(f1[i] == a1[a2.len() as int]);
            assert(is_decimal_digit(a1[a2.len() as int]));
            assert(false);
        }
    };
    assert(a1 =~= a2) by {
        assert forall|i: int| 0 <= i < a1.len() implies a1[i] == a2[i] by {
            assert(f1[15 + i] == a1[i]);
            assert(f2[15 + i] == a2[i]);
        }
    };
    lemma_decimal_injective(s1, s2);
    assert(b1.len() == b2.len());
    assert(b1 =~= b2) by {
        assert forall|i: int| 0 <= i < b1.len() implies b1[i] == b2[i] by {
            assert(f1[16 + a1.len() + i] == b1[i]);
            assert(f2[16 + a2.len() + i] == b2[i]);
        }
    };
    lemma_decimal_injective(t1, t2);
}

/// Distinct `(seconds, token)` pairs generate distinct paths under one
/// directory.
pub proof fn lemma_generated_path_injective(dir: Seq<char>, s1: nat, t1: nat, s2: nat, t2: nat)
    requires
        spec_generated_path(dir, s1, t1) == spec_generated_path(dir, s2, t2),
    ensures
        s1 == s2,
        t1 == t2,
{
    reveal_strlit("/");
    let g1 = spec_generated_path(dir, s1, t1);
    let g2 = spec_generated_path(dir, s2, t2);
    let f1 = spec_socket_file_name(s1, t1);
    let f2 = spec_socket_file_name(s2, t2);
    assert(f1 =~= f2) by {
        assert(g1.len() == dir.len() + 1 + f1.len());
        assert(g2.len() == dir.len() + 1 + f2.len());
        assert forall|i: int| 0 <= i < f1.len() implies f1[i] == f2[i] by {
            assert(g1[dir.len() + 1 + i] == f1[i]);
            assert(g2[dir.len() + 1 + i] == f2[i]);
        }
    };
    lemma_socket_file_name_injective(s1, t1, s2, t2);
}

/// Builds the file name of a generated rendezvous socket.
pub fn socket_file_name(secs: u64, token: u64) -> (name: String)
    ensures
        name@ == spec_socket_file_name(secs as nat, token as nat),
{
    let mut name = String::from_str(".rust-unix-ipc.");
    let secs_part = u64_to_decimal(secs);
    name.append(secs_part.as_str());
    name.append("-");
    let token_part = u64_to_decimal(token);
    name.append(token_part.as_str());
    name.append(".sock");
    proof {
        assert(name@ =~= spec_socket_file_name(secs as nat, token as nat));
    }
    name
}

/// Builds a generated rendezvous path under `dir` (a directory path written
/// without a trailing separator, such as the system temporary directory).
pub fn generated_path(dir: &str, secs: u64, token: u64) -> (p: String)
    ensures
        p@ == spec_generated_path(dir@, secs as nat, token as nat),
{
    let mut p = String::from_str(dir);
    p.append("/");
    let name = socket_file_name(secs, token);
    p.append(name.as_str());
    proof {
        assert(p@ =~= spec_generated_path(dir@, secs as nat, token as nat));
    }
    p
}

} // verus!
