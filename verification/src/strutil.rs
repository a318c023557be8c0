//! Verified helpers for building and comparing the strings that the
//! generator emits: hexadecimal rendering of offsets, substring search
//! for the filter policy, and list joining for synthesized names.
use vstd::prelude::*;

verus! {

/// The character for one hexadecimal digit value.
pub open spec fn hex_digit(d: int) -> char {
    if d == 0 {
        '0'
    } else if d == 1 {
        '1'
    } else if d == 2 {
        '2'
    } else if d == 3 {
        '3'
    } else if d == 4 {
        '4'
    } else if d == 5 {
        '5'
    } else if d == 6 {
        '6'
    } else if d == 7 {
        '7'
    } else if d == 8 {
        '8'
    } else if d == 9 {
        '9'
    } else if d == 10 {
        'a'
    } else if d == 11 {
        'b'
    } else if d == 12 {
        'c'
    } else if d == 13 {
        'd'
    } else if d == 14 {
        'e'
    } else {
        'f'
    }
}

/// The hexadecimal rendering of a number, most significant digit first,
/// with no leading zeroes (zero itself renders as one digit).
pub open spec fn hex_rep(n: int) -> Seq<char>
    decreases n,
{
    if n < 16 {
        seq![hex_digit(n)]
    } else {
        hex_rep(n / 16).push(hex_digit(n % 16))
    }
}

fn hex_digit_str(d: u32) -> (r: &'static str)
    requires
        d < 16,
    ensures
        r@ == seq![hex_digit(d as int)],
{
    match d {
        0 => {
            proof {
                reveal_strlit("0");
                assert("0"@ =~= seq![hex_digit(d as int)]);
            }
            "0"
        },
        1 => {
            proof {
                reveal_strlit("1");
                assert("1"@ =~= seq![hex_digit(d as int)]);
            }
            "1"
        },
        2 => {
            proof {
                reveal_strlit("2");
                assert("2"@ =~= seq![hex_digit(d as int)]);
            }
            "2"
        },
        3 => {
            proof {
                reveal_strlit("3");
                assert("3"@ =~= seq![hex_digit(d as int)]);
            }
            "3"
        },
        4 => {
            proof {
                reveal_strlit("4");
                assert("4"@ =~= seq![hex_digit(d as int)]);
            }
            "4"
        },
        5 => {
            proof {
                reveal_strlit("5");
                assert("5"@ =~= seq![hex_digit(d as int)]);
            }
            "5"
        },
        6 => {
            proof {
                reveal_strlit("6");
                assert("6"@ =~= seq![hex_digit(d as int)]);
            }
            "6"
        },
        7 => {
            proof {
                reveal_strlit("7");
                assert("7"@ =~= seq![hex_digit(d as int)]);
            }
            "7"
        },
        8 => {
            proof {
                reveal_strlit("8");
                assert("8"@ =~= seq![hex_digit(d as int)]);
            }
            "8"
        },
        9 => {
            proof {
                reveal_strlit("9");
                assert("9"@ =~= seq![hex_digit(d as int)]);
            }
            "9"
        },
        10 => {
            proof {
                reveal_strlit("a");
                assert("a"@ =~= seq![hex_digit(d as int)]);
            }
            "a"
        },
        11 => {
            proof {
                reveal_strlit("b");
                assert("b"@ =~= seq![hex_digit(d as int)]);
            }
            "b"
        },
        12 => {
            proof {
                reveal_strlit("c");
                assert("c"@ =~= seq![hex_digit(d as int)]);
            }
            "c"
        },
        13 => {
            proof {
                reveal_strlit("d");
                assert("d"@ =~= seq![hex_digit(d as int)]);
            }
            "d"
        },
        14 => {
            proof {
                reveal_strlit("e");
                assert("e"@ =~= seq![hex_digit(d as int)]);
            }
            "e"
        },
        _ => {
            proof {
                reveal_strlit("f");
                assert("f"@ =~= seq![hex_digit(d as int)]);
            }
            "f"
        },
    }
}

/// Renders an offset as lower-case hexadecimal digits, exactly `hex_rep`.
pub fn u32_to_hex(n: u32) -> (r: String)
    ensures
        r@ == hex_rep(n as int),
    decreases n,
{
    if n < 16 {
        let r = hex_digit_str(n).to_owned();
        proof {
            assert(r@ =~= hex_rep(n as int));
        }
        r
    } else {
        let mut r = u32_to_hex(n / 16);
        r.append(hex_digit_str(n % 16));
        proof {
            assert(r@ =~= hex_rep(n as int));
        }
        r
    }
}

/// A rendered number is never empty, and a number of two or more
/// digits renders to at least two characters.
pub proof fn lemma_hex_rep_len(n: int)
    ensures
        hex_rep(n).len() >= 1,
        n >= 16 ==> hex_rep(n).len() >= 2,
    decreases n,
{
    if n >= 16 {
        lemma_hex_rep_len(n / 16);
    }
}

/// The hexadecimal rendering is injective: the digits of an emitted
/// offset literal determine the offset exactly, so an accessor carrying
/// `hex_rep` of the adapter-supplied offset carries that offset and no
/// other.
pub proof fn lemma_hex_rep_injective(a: int, b: int)
    requires
        0 <= a,
        0 <= b,
        hex_rep(a) == hex_rep(b),
    ensures
        a == b,
    decreases a,
{
    lemma_hex_rep_len(a);
    lemma_hex_rep_len(b);
    if a < 16 && b < 16 {
        assert(hex_rep(a)[0] == hex_digit(a));
        assert(hex_rep(b)[0] == hex_digit(b));
    } else if a < 16 || b < 16 {
        assert(hex_rep(a).len() == hex_rep(b).len());
        assert(false);
    } else {
        assert(hex_rep(a).last() == hex_digit(a % 16));
        assert(hex_rep(b).last() == hex_digit(b % 16));
        assert(hex_rep(a).drop_last() == hex_rep(a / 16));
        assert(hex_rep(b).drop_last() == hex_rep(b / 16));
        assert(a % 16 == b % 16);
        lemma_hex_rep_injective(a / 16, b / 16);
    }
}

/// Equality of two strings, decided by their character sequences.
pub fn str_eq(a: &str, b: &str) -> (r: bool)
    ensures
        r == (a@ == b@),
{
    let sa: String = a.to_owned();
    let sb: String = b.to_owned();
    sa == sb
}

/// Elementwise equality of two lists of strings.
pub open spec fn str_seqs_eq(a: Seq<String>, b: Seq<String>) -> bool {
    a.len() == b.len() && (forall|i: int| 0 <= i < a.len() ==> a[i]@ == b[i]@)
}

/// Decides `str_seqs_eq` on two string vectors.
pub fn str_vec_eq(a: &Vec<String>, b: &Vec<String>) -> (r: bool)
    ensures
        r == str_seqs_eq(a@, b@),
{
    if a.len() != b.len() {
        return false;
    }
    let mut i: usize = 0;
    while i < a.len()
        invariant
            0 <= i <= a@.len(),
            a@.len() == b@.len(),
            forall|k: int| 0 <= k < i ==> a@[k]@ == b@[k]@,
        decreases a@.len() - i,
    {
        if !str_eq(a[i].as_str(), b[i].as_str()) {
            return false;
        }
        i += 1;
    }
    true
}

/// Copies a list of strings, keeping every character sequence.
pub fn clone_strings(v: &Vec<String>) -> (r: Vec<String>)
    ensures
        r@.len() == v@.len(),
        forall|i: int| 0 <= i < v@.len() ==> r@[i]@ == v@[i]@,
{
    let mut r: Vec<String> = Vec::new();
    let mut i: usize = 0;
    while i < v.len()
        invariant
            0 <= i <= v@.len(),
            r@.len() == i,
            forall|k: int| 0 <= k < i ==> r@[k]@ == v@[k]@,
        decreases v@.len() - i,
    {
        r.push(v[i].clone());
        i += 1;
    }
    r
}

/// Whether `n` occurs as a contiguous run of characters inside `h`.
pub open spec fn seq_contains_sub(h: Seq<char>, n: Seq<char>) -> bool {
    exists|i: int| 0 <= i <= h.len() - n.len() && #[trigger] h.subrange(i, i + n.len() as int) == n
}

pub(crate) fn match_at(h: &str, n: &str, pos: usize, h_len: usize, n_len: usize) -> (r: bool)
    requires
        h_len == h@.len(),
        n_len == n@.len(),
        pos + n_len <= h_len,
    ensures
        r == (h@.subrange(pos as int, pos + n@.len()) == n@),
{
    let mut j: usize = 0;
    while j < n_len
        invariant
            0 <= j <= n_len,
            h_len == h@.len(),
            n_len == n@.len(),
            pos + n_len <= h_len,
            forall|k: int| 0 <= k < j ==> h@[pos + k] == n@[k],
        decreases n_len - j,
    {
        if h.get_char(pos + j) != n.get_char(j) {
            proof {
                assert(h@.subrange(pos as int, pos + n@.len())[j as int] != n@[j as int]);
            }
            return false;
        }
        j += 1;
    }
    proof {
        assert(h@.subrange(pos as int, pos + n@.len()) =~= n@);
    }
    true
}

/// Decides whether the string `n` occurs inside `h`.
pub fn str_contains_sub(h: &str, n: &str) -> (r: bool)
    ensures
        r == seq_contains_sub(h@, n@),
{
    let h_len = h.unicode_len();
    let n_len = n.unicode_len();
    if n_len > h_len {
        proof {
            assert(!seq_contains_sub(h@, n@));
        }
        return false;
    }
    if n_len == 0 {
        proof {
            assert(h@.subrange(0, 0 + n@.len() as int) =~= n@);
        }
        return true;
    }
    let mut i: usize = 0;
    while i <= h_len - n_len
        invariant
            1 <= n_len <= h_len,
            h_len == h@.len(),
            n_len == n@.len(),
            0 <= i <= h_len - n_len + 1,
            forall|k: int| 0 <= k < i ==> #[trigger] h@.subrange(k, k + n@.len()) != n@,
        decreases h_len - n_len + 1 - i,
    {
        if match_at(h, n, i, h_len, n_len) {
            return true;
        }
        i += 1;
    }
    false
}

/// The strings of `parts` joined with `sep` between consecutive parts.
pub open spec fn join_rep(parts: Seq<Seq<char>>, sep: Seq<char>) -> Seq<char>
    decreases parts.len(),
{
    if parts.len() == 0 {
        Seq::empty()
    } else if parts.len() == 1 {
        parts[0]
    } else {
        join_rep(parts.drop_last(), sep) + sep + parts.last()
    }
}

/// The views of a list of strings.
pub open spec fn views_of(parts: Seq<String>) -> Seq<Seq<char>> {
    parts.map_values(|s: String| s@)
}

/// Joins strings with a separator, exactly `join_rep` over their views.
pub fn join_strings(parts: &Vec<String>, sep: &str) -> (r: String)
    ensures
        r@ == join_rep(views_of(parts@), sep@),
{
    let mut r = String::new();
    let mut i: usize = 0;
    while i < parts.len()
        invariant
            0 <= i <= parts@.len(),
            r@ == join_rep(views_of(parts@).take(i as int), sep@),
        decreases parts@.len() - i,
    {
        if i > 0 {
            r.append(sep);
        }
        r.append(parts[i].as_str());
        proof {
            let pv = views_of(parts@);
            assert(pv.take(i + 1).drop_last() =~= pv.take(i as int));
            assert(pv.take(i + 1).last() == parts@[i as int]@);
        }
        i += 1;
    }
    proof {
        assert(views_of(parts@).take(parts@.len() as int) =~= views_of(parts@));
    }
    r
}

} // verus!
