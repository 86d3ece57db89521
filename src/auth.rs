//! The PLAIN authentication payload: `authzid NUL authcid NUL password`.
use vstd::prelude::*;
use vstd::utf8::{decode_utf8, valid_utf8};

verus! {

/// A user name and password.
#[derive(Clone, Debug)]
pub struct Credentials {
    pub username: String,
    pub password: String,
}

/// `i` and `j` are the payload's two NUL separators, and it holds no other.
pub open spec fn plain_delims(b: Seq<u8>, i: int, j: int) -> bool {
    &&& 0 <= i < j < b.len()
    &&& b[i] == 0 && b[j] == 0
    &&& forall|k: int| 0 <= k < b.len() && k != i && k != j ==> #[trigger] b[k] != 0
}

/// Relies on `String::from_utf8`: it succeeds exactly on valid UTF-8 and then
/// holds the decoded characters.
#[verifier::external_body]
fn utf8_string(b: Vec<u8>) -> (r: Option<String>)
    ensures
        r is Some <==> valid_utf8(b@),
        r is Some ==> r->Some_0@ == decode_utf8(b@),
{
    String::from_utf8(b).ok()
}

fn copy_range(b: &Vec<u8>, from: usize, to: usize) -> (r: Vec<u8>)
    requires
        from <= to <= b.len(),
    ensures
        r@ == b@.subrange(from as int, to as int),
{
    let mut r: Vec<u8> = Vec::new();
    let mut i: usize = from;
    while i < to
        invariant
            from <= i <= to <= b.len(),
            r@ == b@.subrange(from as int, i as int),
        decreases to - i,
    {
        r.push(b[i]);
        assert(r@ =~= b@.subrange(from as int, i + 1));
        i = i + 1;
    }
    r
}

/// The user name (authcid) and password of a PLAIN payload; `None` when it
/// does not hold exactly two NUL separators or a field is not UTF-8.
pub fn parse_plain(b: &Vec<u8>) -> (r: Option<Credentials>)
    ensures
        match r {
            Some(c) => exists|i: int, j: int|
                plain_delims(b@, i, j) && valid_utf8(b@.subrange(i + 1, j)) && valid_utf8(
                    b@.subrange(j + 1, b@.len() as int),
                ) && c.username@ == decode_utf8(b@.subrange(i + 1, j)) && c.password@
                    == decode_utf8(b@.subrange(j + 1, b@.len() as int)),
            None => forall|i: int, j: int|
                plain_delims(b@, i, j) ==> !valid_utf8(b@.subrange(i + 1, j)) || !valid_utf8(
                    b@.subrange(j + 1, b@.len() as int),
                ),
        },
{
    let mut first: Option<usize> = None;
    let mut second: Option<usize> = None;
    let mut k: usize = 0;
    while k < b.len()
        invariant
            k <= b.len(),
            match (first, second) {
                (None, None) => forall|x: int| 0 <= x < k ==> #[trigger] b@[x] != 0,
                (Some(i), None) => i < k && b@[i as int] == 0 && forall|x: int|
                    0 <= x < k && x != i ==> #[trigger] b@[x] != 0,
                (Some(i), Some(j)) => i < j < k && b@[i as int] == 0 && b@[j as int] == 0
                    && forall|x: int| 0 <= x < k && x != i && x != j ==> #[trigger] b@[x] != 0,
                (None, Some(_)) => false,
            },
        decreases b.len() - k,
    {
        if b[k] == 0 {
            match (first, second) {
                (None, None) => {
                    first = Some(k);
                },
                (Some(_), None) => {
                    second = Some(k);
                },
                _ => {
                    proof {
                        assert forall|i: int, j: int| plain_delims(b@, i, j) implies !valid_utf8(
                            b@.subrange(i + 1, j),
                        ) || !valid_utf8(b@.subrange(j + 1, b@.len() as int)) by {
                            let (fi, si) = (first->Some_0 as int, second->Some_0 as int);
                            assert(b@[fi] == 0 && b@[si] == 0 && b@[k as int] == 0);
                        }
                    }
                    return None;
                },
            }
        }
        k = k + 1;
    }
    match (first, second) {
        (Some(i), Some(j)) => {
            proof {
                assert(plain_delims(b@, i as int, j as int));
            }
            let user = utf8_string(copy_range(b, i + 1, j));
            let pass = utf8_string(copy_range(b, j + 1, b.len()));
            proof {
                assert forall|x: int, y: int| plain_delims(b@, x, y) implies x == i && y == j by {
                    assert(b@[x] == 0 && b@[y] == 0);
                }
            }
            match (user, pass) {
                (Some(u), Some(p)) => Some(Credentials { username: u, password: p }),
                _ => None,
            }
        },
        _ => {
            proof {
                assert forall|i: int, j: int| plain_delims(b@, i, j) implies !valid_utf8(
                    b@.subrange(i + 1, j),
                ) || !valid_utf8(b@.subrange(j + 1, b@.len() as int)) by {
                    assert(b@[i] == 0 && b@[j] == 0);
                }
            }
            None
        },
    }
}

} // verus!
