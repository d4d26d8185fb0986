//! Email shape validation: the basic `local@domain.tld` pattern checked
//! at checkout — one `@` with something before it, and after the `@` a
//! `.` with something on both sides, with no whitespace anywhere.

use vstd::prelude::*;
use crate::strings::is_space;

verus! {

/// A character the parts of an email may hold: anything but `@` and
/// whitespace.
pub open spec fn plain_email_char(c: char) -> bool {
    c != '@' && !is_space(c)
}

/// A witness decomposition of `s` as `local@domain.tld`: the `@` at
/// `i` (not first), a `.` at `j` with at least one character between
/// `@` and `.` and at least one after, and every other character plain.
pub open spec fn email_split_at(s: Seq<char>, i: int, j: int) -> bool {
    &&& 0 < i
    &&& i + 1 < j
    &&& j < s.len() - 1
    &&& s[i] == '@'
    &&& s[j] == '.'
    &&& forall|k: int| 0 <= k < s.len() && k != i ==> plain_email_char(#[trigger] s[k])
}

/// The email shape accepted at checkout.
pub open spec fn email_spec(s: Seq<char>) -> bool {
    exists|i: int, j: int| email_split_at(s, i, j)
}

/// Checks the `local@domain.tld` shape; the caller trims first.
pub fn is_valid_email(s: &str) -> (r: bool)
    ensures
        r == email_spec(s@),
{
    let n = s.unicode_len();
    let mut at: Option<usize> = None;
    let mut pos: usize = 0;
    while pos < n
        invariant
            0 <= pos <= n,
            n == s@.len(),
            match at {
                None => forall|k: int| 0 <= k < pos ==> plain_email_char(#[trigger] s@[k]),
                Some(a) => a < pos && s@[a as int] == '@' && forall|k: int|
                    0 <= k < pos && k != a ==> plain_email_char(#[trigger] s@[k]),
            },
        decreases n - pos,
    {
        let c = s.get_char(pos);
        if c == '@' {
            match at {
                None => {
                    at = Some(pos);
                },
                Some(a) => {
                    proof {
                        assert forall|i2: int, j2: int| !email_split_at(s@, i2, j2) by {
                            if email_split_at(s@, i2, j2) {
                                if i2 != a {
                                    assert(plain_email_char(s@[a as int]));
                                } else {
                                    assert(plain_email_char(s@[pos as int]));
                                }
                            }
                        }
                    }
                    return false;
                },
            }
        } else if crate::strings::is_space_char(c) {
            proof {
                assert forall|i2: int, j2: int| !email_split_at(s@, i2, j2) by {
                    if email_split_at(s@, i2, j2) {
                        if i2 != pos as int {
                            assert(plain_email_char(s@[pos as int]));
                        } else {
                            assert(s@[i2] == '@');
                        }
                    }
                }
            }
            return false;
        }
        pos += 1;
    }
    let i = match at {
        Some(a) => a,
        None => {
            proof {
                assert forall|i2: int, j2: int| !email_split_at(s@, i2, j2) by {
                    if email_split_at(s@, i2, j2) {
                        assert(s@[i2] == '@');
                        assert(plain_email_char(s@[i2]));
                    }
                }
            }
            return false;
        },
    };
    if i == 0 {
        proof {
            assert forall|i2: int, j2: int| !email_split_at(s@, i2, j2) by {
                if email_split_at(s@, i2, j2) {
                    if i2 != 0 {
                        assert(plain_email_char(s@[0]));
                    }
                }
            }
        }
        return false;
    }
    let mut j = i;
    while j < n
        invariant
            i <= j <= n,
            n == s@.len(),
            i < n,
            0 < i,
            s@[i as int] == '@',
            forall|k: int| 0 <= k < n && k != i ==> plain_email_char(#[trigger] s@[k]),
            forall|k: int| i <= k < j ==> !(k >= i + 2 && k < n - 1 && s@[k] == '.'),
        decreases n - j,
    {
        if j - i >= 2 && j + 1 < n && s.get_char(j) == '.' {
            proof {
                assert(email_split_at(s@, i as int, j as int));
            }
            return true;
        }
        j += 1;
    }
    proof {
        assert forall|i2: int, j2: int| !email_split_at(s@, i2, j2) by {
            if email_split_at(s@, i2, j2) {
                if i2 != i {
                    assert(plain_email_char(s@[i as int]));
                } else {
                    assert(!(j2 >= i + 2 && j2 < n - 1 && s@[j2] == '.'));
                }
            }
        }
    }
    false
}

} // verus!
