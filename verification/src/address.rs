//! The grammar of an IPv4 socket address: four decimal octets separated by
//! dots, a colon, and a decimal port.

use vstd::prelude::*;

verus! {

/// Whether `b` is an ASCII decimal digit.
pub open spec fn is_digit(b: u8) -> bool {
    48 <= b <= 57
}

/// Whether every byte of `s` is a decimal digit.
pub open spec fn all_digits(s: Seq<u8>) -> bool {
    forall|i: int| 0 <= i < s.len() ==> is_digit(#[trigger] s[i])
}

/// The number that the digits of `s` write in decimal; 0 for no digits.
pub open spec fn number(s: Seq<u8>) -> nat
    decreases s.len(),
{
    if s.len() == 0 {
        0
    } else {
        number(s.drop_last()) * 10 + (s.last() - 48) as nat
    }
}

/// Whether `s` writes one octet of an address: one to three digits, no
/// leading zero before another digit, and a value of at most 255.
pub open spec fn is_octet(s: Seq<u8>) -> bool {
    &&& 1 <= s.len() <= 3
    &&& all_digits(s)
    &&& s.len() > 1 ==> s[0] != 48
    &&& number(s) <= 255
}

/// Whether `s` writes a port: at least one digit, leading zeros allowed, and
/// a value of at most 65535.
pub open spec fn is_port(s: Seq<u8>) -> bool {
    &&& s.len() >= 1
    &&& all_digits(s)
    &&& number(s) <= 65535
}

/// Whether `s` is an address with its three dots at `d1`, `d2`, `d3` and its
/// colon at `c`: an octet before each of them, and a port after the colon up
/// to the end of `s`.
pub open spec fn splits_as_address(s: Seq<u8>, d1: int, d2: int, d3: int, c: int) -> bool {
    &&& 0 <= d1 < d2 < d3 < c < s.len()
    &&& s[d1] == 46
    &&& s[d2] == 46
    &&& s[d3] == 46
    &&& s[c] == 58
    &&& is_octet(s.subrange(0, d1))
    &&& is_octet(s.subrange(d1 + 1, d2))
    &&& is_octet(s.subrange(d2 + 1, d3))
    &&& is_octet(s.subrange(d3 + 1, c))
    &&& is_port(s.subrange(c + 1, s.len() as int))
}

/// Whether the bytes `s` are an IPv4 socket address, such as `0.0.0.0:5050`.
pub open spec fn is_socket_address(s: Seq<u8>) -> bool {
    exists|d1: int, d2: int, d3: int, c: int| splits_as_address(s, d1, d2, d3, c)
}

/// A run of digits that cannot be extended ends at one place only.
proof fn lemma_run_end(s: Seq<u8>, start: int, m: int, e: int)
    requires
        0 <= start <= m <= s.len(),
        all_digits(s.subrange(start, m)),
        m < s.len() ==> !is_digit(s[m]),
        start <= e <= s.len(),
        all_digits(s.subrange(start, e)),
        e < s.len() ==> !is_digit(s[e]),
    ensures
        e == m,
{
    if e < m {
        assert(s.subrange(start, m)[e - start] == s[e]);
    } else if m < e {
        assert(s.subrange(start, e)[m - start] == s[m]);
    }
}

/// The digits read so far never write more than all the digits do.
proof fn lemma_number_prefix(s: Seq<u8>, k: int)
    requires
        0 <= k <= s.len(),
    ensures
        number(s.take(k)) <= number(s),
    decreases s.len(),
{
    if k < s.len() {
        lemma_number_prefix(s.drop_last(), k);
        assert(s.drop_last().take(k) =~= s.take(k));
    } else {
        assert(s.take(k) =~= s);
    }
}

/// Finds the end of the run of digits that starts at `start`.
fn scan_digits(s: &[u8], start: usize) -> (end: usize)
    requires
        start <= s.len(),
    ensures
        start <= end <= s.len(),
        all_digits(s@.subrange(start as int, end as int)),
        end < s.len() ==> !is_digit(s[end as int]),
{
    let mut end: usize = start;
    while end < s.len() && 48 <= s[end] && s[end] <= 57
        invariant
            start <= end <= s.len(),
            all_digits(s@.subrange(start as int, end as int)),
        decreases s.len() - end,
    {
        proof {
            let next = s@.subrange(start as int, end + 1);
            assert forall|i: int| 0 <= i < next.len() implies is_digit(#[trigger] next[i]) by {
                if i < end - start {
                    assert(s@.subrange(start as int, end as int)[i] == next[i]);
                }
            }
        }
        end += 1;
    }
    end
}

/// Reads the digits between `start` and `end` as a number, unless it is
/// larger than `limit`.
fn read_number(s: &[u8], start: usize, end: usize, limit: u32) -> (value: Option<u32>)
    requires
        start <= end <= s.len(),
        all_digits(s@.subrange(start as int, end as int)),
        limit <= 65535,
    ensures
        value matches Some(v) ==> v == number(s@.subrange(start as int, end as int)) && v <= limit,
        value is None ==> number(s@.subrange(start as int, end as int)) > limit,
{
    let ghost digits = s@.subrange(start as int, end as int);
    let mut v: u32 = 0;
    let mut i: usize = start;
    while i < end
        invariant
            start <= i <= end <= s.len(),
            digits == s@.subrange(start as int, end as int),
            all_digits(digits),
            limit <= 65535,
            v == number(digits.take(i - start)),
            v <= limit,
        decreases end - i,
    {
        proof {
            assert(digits.take(i - start + 1).drop_last() =~= digits.take(i - start));
            assert(digits.take(i - start + 1).last() == s[i as int]);
            assert(is_digit(digits[i - start]));
        }
        let d: u32 = (s[i] - 48) as u32;
        let next: u32 = v * 10 + d;
        if next > limit {
            proof {
                lemma_number_prefix(digits, i - start + 1);
            }
            return None;
        }
        v = next;
        i += 1;
    }
    proof {
        assert(digits.take(end - start) =~= digits);
    }
    Some(v)
}

/// Reads one octet at `start`: the end of its digits, if they write an octet.
fn octet_end(s: &[u8], start: usize) -> (end: Option<usize>)
    requires
        start <= s.len(),
    ensures
        end matches Some(e) ==> start < e <= s.len() && is_octet(
            s@.subrange(start as int, e as int),
        ) && (e < s.len() ==> !is_digit(s[e as int])),
        end is None ==> forall|e: int|
            start <= e <= s.len() && (e < s.len() ==> !is_digit(s[e])) ==> !is_octet(
                #[trigger] s@.subrange(start as int, e),
            ),
{
    let m = scan_digits(s, start);
    let well_formed = 1 <= m - start && m - start <= 3 && (m - start == 1 || s[start] != 48);
    let value = if well_formed {
        read_number(s, start, m, 255)
    } else {
        None
    };
    proof {
        let run = s@.subrange(start as int, m as int);
        if m > start {
            assert(run[0] == s[start as int]);
        }
        assert forall|e: int|
            start <= e <= s.len() && (e < s.len() ==> !is_digit(s[e])) && is_octet(
                #[trigger] s@.subrange(start as int, e),
            ) implies e == m by {
            lemma_run_end(s@, start as int, m as int, e);
        }
    }
    match value {
        Some(_) => Some(m),
        None => None,
    }
}

/// Decides whether `s` is an IPv4 socket address.
pub fn is_valid_socket_address(s: &[u8]) -> (valid: bool)
    ensures
        valid == is_socket_address(s@),
{
    let d1 = match octet_end(s, 0) {
        Some(e) => e,
        None => {
            assert(!is_socket_address(s@)) by {
                assert forall|d1: int, d2: int, d3: int, c: int|
                    !splits_as_address(s@, d1, d2, d3, c) by {
                    if splits_as_address(s@, d1, d2, d3, c) {
                        assert(!is_digit(s[d1]));
                    }
                }
            }
            return false;
        },
    };
    if d1 >= s.len() || s[d1] != 46 {
        assert(!is_socket_address(s@)) by {
            assert forall|e1: int, e2: int, e3: int, c: int|
                !splits_as_address(s@, e1, e2, e3, c) by {
                if splits_as_address(s@, e1, e2, e3, c) {
                    lemma_run_end(s@, 0, d1 as int, e1);
                }
            }
        }
        return false;
    }
    let d2 = match octet_end(s, d1 + 1) {
        Some(e) => e,
        None => {
            assert(!is_socket_address(s@)) by {
                assert forall|e1: int, e2: int, e3: int, c: int|
                    !splits_as_address(s@, e1, e2, e3, c) by {
                    if splits_as_address(s@, e1, e2, e3, c) {
                        lemma_run_end(s@, 0, d1 as int, e1);
                        assert(!is_digit(s[e2]));
                    }
                }
            }
            return false;
        },
    };
    if d2 >= s.len() || s[d2] != 46 {
        assert(!is_socket_address(s@)) by {
            assert forall|e1: int, e2: int, e3: int, c: int|
                !splits_as_address(s@, e1, e2, e3, c) by {
                if splits_as_address(s@, e1, e2, e3, c) {
                    lemma_run_end(s@, 0, d1 as int, e1);
                    lemma_run_end(s@, d1 + 1, d2 as int, e2);
                }
            }
        }
        return false;
    }
    let d3 = match octet_end(s, d2 + 1) {
        Some(e) => e,
        None => {
            assert(!is_socket_address(s@)) by {
                assert forall|e1: int, e2: int, e3: int, c: int|
                    !splits_as_address(s@, e1, e2, e3, c) by {
                    if splits_as_address(s@, e1, e2, e3, c) {
                        lemma_run_end(s@, 0, d1 as int, e1);
                        lemma_run_end(s@, d1 + 1, d2 as int, e2);
                        assert(!is_digit(s[e3]));
                    }
                }
            }
            return false;
        },
    };
    if d3 >= s.len() || s[d3] != 46 {
        assert(!is_socket_address(s@)) by {
            assert forall|e1: int, e2: int, e3: int, c: int|
                !splits_as_address(s@, e1, e2, e3, c) by {
                if splits_as_address(s@, e1, e2, e3, c) {
                    lemma_run_end(s@, 0, d1 as int, e1);
                    lemma_run_end(s@, d1 + 1, d2 as int, e2);
                    lemma_run_end(s@, d2 + 1, d3 as int, e3);
                }
            }
        }
        return false;
    }
    let c = match octet_end(s, d3 + 1) {
        Some(e) => e,
        None => {
            assert(!is_socket_address(s@)) by {
                assert forall|e1: int, e2: int, e3: int, e4: int|
                    !splits_as_address(s@, e1, e2, e3, e4) by {
                    if splits_as_address(s@, e1, e2, e3, e4) {
                        lemma_run_end(s@, 0, d1 as int, e1);
                        lemma_run_end(s@, d1 + 1, d2 as int, e2);
                        lemma_run_end(s@, d2 + 1, d3 as int, e3);
                        assert(!is_digit(s[e4]));
                    }
                }
            }
            return false;
        },
    };
    if c >= s.len() || s[c] != 58 {
        assert(!is_socket_address(s@)) by {
            assert forall|e1: int, e2: int, e3: int, e4: int|
                !splits_as_address(s@, e1, e2, e3, e4) by {
                if splits_as_address(s@, e1, e2, e3, e4) {
                    lemma_run_end(s@, 0, d1 as int, e1);
                    lemma_run_end(s@, d1 + 1, d2 as int, e2);
                    lemma_run_end(s@, d2 + 1, d3 as int, e3);
                    lemma_run_end(s@, d3 + 1, c as int, e4);
                }
            }
        }
        return false;
    }
    let end = scan_digits(s, c + 1);
    let port = if end == s.len() && end > c + 1 {
        read_number(s, c + 1, end, 65535)
    } else {
        None
    };
    match port {
        Some(_) => {
            assert(splits_as_address(s@, d1 as int, d2 as int, d3 as int, c as int));
            true
        },
        None => {
            assert(!is_socket_address(s@)) by {
                assert forall|e1: int, e2: int, e3: int, e4: int|
                    !splits_as_address(s@, e1, e2, e3, e4) by {
                    if splits_as_address(s@, e1, e2, e3, e4) {
                        lemma_run_end(s@, 0, d1 as int, e1);
                        lemma_run_end(s@, d1 + 1, d2 as int, e2);
                        lemma_run_end(s@, d2 + 1, d3 as int, e3);
                        lemma_run_end(s@, d3 + 1, c as int, e4);
                        lemma_run_end(s@, c + 1, end as int, s.len() as int);
                    }
                }
            }
            false
        },
    }
}

} // verus!
