//! Validity of key bytes as text. The scalar-get path rejects a key whose
//! bytes are not a well-formed text encoding before any backend call is
//! issued; this module defines that encoding and checks it.

use vstd::prelude::*;

verus! {

/// A continuation byte of a multi-byte character: `0b10xxxxxx`.
pub open spec fn is_cont(b: u8) -> bool {
    128 <= b && b <= 191
}

/// Whether `s` is a well-formed text encoding: a sequence of one- to
/// four-byte characters, with overlong forms, surrogates and out-of-range
/// code points excluded by the bounds on each lead and continuation byte.
pub open spec fn is_valid_text(s: Seq<u8>) -> bool
    decreases s.len(),
{
    if s.len() == 0 {
        true
    } else {
        let b0 = s[0];
        if b0 <= 127 {
            is_valid_text(s.skip(1))
        } else if 194 <= b0 && b0 <= 223 {
            s.len() >= 2 && is_cont(s[1]) && is_valid_text(s.skip(2))
        } else if b0 == 224 {
            s.len() >= 3 && 160 <= s[1] && s[1] <= 191 && is_cont(s[2]) && is_valid_text(s.skip(3))
        } else if (225 <= b0 && b0 <= 236) || b0 == 238 || b0 == 239 {
            s.len() >= 3 && is_cont(s[1]) && is_cont(s[2]) && is_valid_text(s.skip(3))
        } else if b0 == 237 {
            s.len() >= 3 && 128 <= s[1] && s[1] <= 159 && is_cont(s[2]) && is_valid_text(s.skip(3))
        } else if b0 == 240 {
            s.len() >= 4 && 144 <= s[1] && s[1] <= 191 && is_cont(s[2]) && is_cont(s[3])
                && is_valid_text(s.skip(4))
        } else if 241 <= b0 && b0 <= 243 {
            s.len() >= 4 && is_cont(s[1]) && is_cont(s[2]) && is_cont(s[3]) && is_valid_text(
                s.skip(4),
            )
        } else if b0 == 244 {
            s.len() >= 4 && 128 <= s[1] && s[1] <= 143 && is_cont(s[2]) && is_cont(s[3])
                && is_valid_text(s.skip(4))
        } else {
            false
        }
    }
}

proof fn lemma_skip_skip(s: Seq<u8>, a: int, b: int)
    requires
        0 <= a,
        0 <= b,
        a + b <= s.len(),
    ensures
        s.skip(a).skip(b) == s.skip(a + b),
{
    assert(s.skip(a).skip(b) =~= s.skip(a + b));
}

/// Checks whether `b` is a continuation byte.
fn cont_ok(b: u8) -> (r: bool)
    ensures
        r == is_cont(b),
{
    128 <= b && b <= 191
}

/// Checks whether the bytes of `s` are a well-formed text encoding.
pub fn is_valid_text_bytes(s: &Vec<u8>) -> (r: bool)
    ensures
        r == is_valid_text(s@),
{
    let n = s.len();
    let mut i: usize = 0;
    assert(s@.skip(0) =~= s@);
    while i < n
        invariant
            i <= n,
            n == s@.len(),
            is_valid_text(s@) == is_valid_text(s@.skip(i as int)),
        decreases n - i,
    {
        let ghost tail = s@.skip(i as int);
        proof {
            assert(tail.len() == n - i);
            assert(tail[0] == s@[i as int]);
        }
        let b0 = s[i];
        if b0 <= 127 {
            proof {
                lemma_skip_skip(s@, i as int, 1);
            }
            i = i + 1;
        } else if 194 <= b0 && b0 <= 223 {
            if n - i < 2 {
                return false;
            }
            proof {
                assert(tail[1] == s@[i as int + 1]);
            }
            if !cont_ok(s[i + 1]) {
                return false;
            }
            proof {
                lemma_skip_skip(s@, i as int, 2);
            }
            i = i + 2;
        } else if (225 <= b0 && b0 <= 236) || b0 == 238 || b0 == 239 || b0 == 224 || b0 == 237 {
            if n - i < 3 {
                return false;
            }
            proof {
                assert(tail[1] == s@[i as int + 1]);
                assert(tail[2] == s@[i as int + 2]);
            }
            let b1 = s[i + 1];
            let b2 = s[i + 2];
            let b1_ok = if b0 == 224 {
                160 <= b1 && b1 <= 191
            } else if b0 == 237 {
                128 <= b1 && b1 <= 159
            } else {
                cont_ok(b1)
            };
            if !b1_ok || !cont_ok(b2) {
                return false;
            }
            proof {
                lemma_skip_skip(s@, i as int, 3);
            }
            i = i + 3;
        } else if 240 <= b0 && b0 <= 244 {
            if n - i < 4 {
                return false;
            }
            proof {
                assert(tail[1] == s@[i as int + 1]);
                assert(tail[2] == s@[i as int + 2]);
                assert(tail[3] == s@[i as int + 3]);
            }
            let b1 = s[i + 1];
            let b2 = s[i + 2];
            let b3 = s[i + 3];
            let b1_ok = if b0 == 240 {
                144 <= b1 && b1 <= 191
            } else if b0 == 244 {
                128 <= b1 && b1 <= 143
            } else {
                cont_ok(b1)
            };
            if !b1_ok || !cont_ok(b2) || !cont_ok(b3) {
                return false;
            }
            proof {
                lemma_skip_skip(s@, i as int, 4);
            }
            i = i + 4;
        } else {
            return false;
        }
    }
    assert(s@.skip(n as int) =~= Seq::<u8>::empty());
    true
}

} // verus!
