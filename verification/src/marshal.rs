use vstd::prelude::*;

verus! {

// Text crosses the boundary as null-terminated byte buffers.  A buffer is
// acceptable only when its payload is null-byte-free UTF-8: anything else is
// rejected before the boundary is touched, because silently truncating or
// substituting bytes in a determinism-sensitive harness could corrupt a
// test's identity without detection.

/// No byte of `s` is a null byte.
pub open spec fn no_interior_null(s: Seq<u8>) -> bool {
    forall|i: int| 0 <= i < s.len() ==> s[i] != 0
}

/// `b` is a UTF-8 continuation byte.
pub open spec fn is_cont(b: u8) -> bool {
    0x80 <= b <= 0xBF
}

/// Length of the UTF-8 scalar that starts at position `i` of `s`, or 0 when
/// no well-formed scalar starts there.  Overlong encodings and surrogate
/// code points are malformed, as in the UTF-8 definition.
pub open spec fn scalar_len(s: Seq<u8>, i: int) -> int {
    if !(0 <= i < s.len()) {
        0
    } else {
        let b0 = s[i];
        if b0 < 0x80 {
            1
        } else if 0xC2 <= b0 <= 0xDF {
            if i + 1 < s.len() && is_cont(s[i + 1]) {
                2
            } else {
                0
            }
        } else if b0 == 0xE0 {
            if i + 2 < s.len() && 0xA0 <= s[i + 1] <= 0xBF && is_cont(s[i + 2]) {
                3
            } else {
                0
            }
        } else if 0xE1 <= b0 <= 0xEC || b0 == 0xEE || b0 == 0xEF {
            if i + 2 < s.len() && is_cont(s[i + 1]) && is_cont(s[i + 2]) {
                3
            } else {
                0
            }
        } else if b0 == 0xED {
            if i + 2 < s.len() && 0x80 <= s[i + 1] <= 0x9F && is_cont(s[i + 2]) {
                3
            } else {
                0
            }
        } else if b0 == 0xF0 {
            if i + 3 < s.len() && 0x90 <= s[i + 1] <= 0xBF && is_cont(s[i + 2]) && is_cont(
                s[i + 3],
            ) {
                4
            } else {
                0
            }
        } else if 0xF1 <= b0 <= 0xF3 {
            if i + 3 < s.len() && is_cont(s[i + 1]) && is_cont(s[i + 2]) && is_cont(s[i + 3]) {
                4
            } else {
                0
            }
        } else if b0 == 0xF4 {
            if i + 3 < s.len() && 0x80 <= s[i + 1] <= 0x8F && is_cont(s[i + 2]) && is_cont(
                s[i + 3],
            ) {
                4
            } else {
                0
            }
        } else {
            0
        }
    }
}

/// The bytes of `s` from position `i` on are a sequence of well-formed
/// UTF-8 scalars.
pub open spec fn is_utf8_from(s: Seq<u8>, i: int) -> bool
    decreases s.len() - i,
{
    if i >= s.len() {
        true
    } else if scalar_len(s, i) == 0 {
        false
    } else {
        is_utf8_from(s, i + scalar_len(s, i))
    }
}

/// `s` is well-formed UTF-8.
pub open spec fn is_utf8(s: Seq<u8>) -> bool {
    is_utf8_from(s, 0)
}

/// `s` may cross the boundary: well-formed UTF-8 with no interior null.
pub open spec fn text_ok(s: Seq<u8>) -> bool {
    is_utf8(s) && no_interior_null(s)
}

/// `b` is a UTF-8 continuation byte.
fn is_cont_byte(b: u8) -> (r: bool)
    ensures
        r == is_cont(b),
{
    0x80 <= b && b <= 0xBF
}

/// Decide whether `buf` holds a null byte anywhere.
pub fn check_no_null(buf: &Vec<u8>) -> (r: bool)
    ensures
        r == no_interior_null(buf@),
{
    let n = buf.len();
    let mut i: usize = 0;
    while i < n
        invariant
            n == buf@.len(),
            i <= n,
            forall|j: int| 0 <= j < i ==> buf@[j] != 0,
        decreases n - i,
    {
        if buf[i] == 0 {
            return false;
        }
        i = i + 1;
    }
    true
}

/// Decide whether `buf` is well-formed UTF-8.
pub fn check_utf8(buf: &Vec<u8>) -> (r: bool)
    ensures
        r == is_utf8(buf@),
{
    let n = buf.len();
    let mut i: usize = 0;
    while i < n
        invariant
            n == buf@.len(),
            i <= n,
            is_utf8(buf@) == is_utf8_from(buf@, i as int),
        decreases n - i,
    {
        let b0 = buf[i];
        let rem = n - i;
        let k: usize = if b0 < 0x80 {
            1
        } else if 0xC2 <= b0 && b0 <= 0xDF {
            if rem >= 2 && is_cont_byte(buf[i + 1]) {
                2
            } else {
                0
            }
        } else if b0 == 0xE0 {
            if rem >= 3 && 0xA0 <= buf[i + 1] && buf[i + 1] <= 0xBF && is_cont_byte(buf[i + 2]) {
                3
            } else {
                0
            }
        } else if (0xE1 <= b0 && b0 <= 0xEC) || b0 == 0xEE || b0 == 0xEF {
            if rem >= 3 && is_cont_byte(buf[i + 1]) && is_cont_byte(buf[i + 2]) {
                3
            } else {
                0
            }
        } else if b0 == 0xED {
            if rem >= 3 && 0x80 <= buf[i + 1] && buf[i + 1] <= 0x9F && is_cont_byte(buf[i + 2]) {
                3
            } else {
                0
            }
        } else if b0 == 0xF0 {
            if rem >= 4 && 0x90 <= buf[i + 1] && buf[i + 1] <= 0xBF && is_cont_byte(buf[i + 2])
                && is_cont_byte(buf[i + 3]) {
                4
            } else {
                0
            }
        } else if 0xF1 <= b0 && b0 <= 0xF3 {
            if rem >= 4 && is_cont_byte(buf[i + 1]) && is_cont_byte(buf[i + 2]) && is_cont_byte(
                buf[i + 3],
            ) {
                4
            } else {
                0
            }
        } else if b0 == 0xF4 {
            if rem >= 4 && 0x80 <= buf[i + 1] && buf[i + 1] <= 0x8F && is_cont_byte(buf[i + 2])
                && is_cont_byte(buf[i + 3]) {
                4
            } else {
                0
            }
        } else {
            0
        };
        if k == 0 {
            assert(scalar_len(buf@, i as int) == 0);
            return false;
        }
        assert(scalar_len(buf@, i as int) == k);
        i = i + k;
    }
    true
}

/// Decide whether `buf` may cross the boundary as text.
pub fn check_text(buf: &Vec<u8>) -> (r: bool)
    ensures
        r == text_ok(buf@),
{
    check_utf8(buf) && check_no_null(buf)
}

/// Marshal outgoing text for the host: append the null terminator.
///
/// A payload that already holds a null byte cannot be represented as a
/// C string and is rejected; nothing is handed to the host for it.
pub fn str_for_c(buf: Vec<u8>) -> (r: Option<Vec<u8>>)
    ensures
        match r {
            Some(c) => no_interior_null(buf@) && c@ == buf@.push(0u8),
            None => !no_interior_null(buf@),
        },
{
    let ghost b = buf@;
    if check_no_null(&buf) {
        let mut c = buf;
        c.push(0);
        assert(c@ == b.push(0u8));
        Some(c)
    } else {
        None
    }
}

/// Position of the first null byte of `s`, or `s.len()` when none occurs.
pub open spec fn first_null(s: Seq<u8>) -> int
    decreases s.len(),
{
    if s.len() == 0 {
        0
    } else if s[0] == 0 {
        0
    } else {
        1 + first_null(s.subrange(1, s.len() as int))
    }
}

/// The payload of a null-terminated buffer: the bytes before the first null.
pub open spec fn c_prefix(s: Seq<u8>) -> Seq<u8> {
    s.subrange(0, first_null(s))
}

/// `first_null` is the index of the first null byte when one occurs, and the
/// length of `s` otherwise.
pub proof fn lemma_first_null(s: Seq<u8>)
    ensures
        0 <= first_null(s) <= s.len(),
        first_null(s) < s.len() ==> s[first_null(s)] == 0,
        forall|j: int| 0 <= j < first_null(s) ==> s[j] != 0,
    decreases s.len(),
{
    if s.len() == 0 {
    } else if s[0] == 0 {
    } else {
        let t = s.subrange(1, s.len() as int);
        lemma_first_null(t);
        assert forall|j: int| 0 <= j < first_null(s) implies s[j] != 0 by {
            if j > 0 {
                assert(t[j - 1] != 0);
                assert(s[j] == t[j - 1]);
            }
        }
    }
}

/// When the first `i` bytes of `s` are non-null and either `i` is the length
/// of `s` or `s[i]` is null, `i` is exactly `first_null(s)`.
proof fn lemma_first_null_at(s: Seq<u8>, i: int)
    requires
        0 <= i <= s.len(),
        forall|j: int| 0 <= j < i ==> s[j] != 0,
        i < s.len() ==> s[i] == 0,
    ensures
        first_null(s) == i,
    decreases s.len(),
{
    if s.len() == 0 {
    } else if i == 0 {
    } else {
        let t = s.subrange(1, s.len() as int);
        assert forall|j: int| 0 <= j < i - 1 implies t[j] != 0 by {
            assert(t[j] == s[j + 1]);
        }
        assert(i - 1 < t.len() ==> t[i - 1] == 0);
        lemma_first_null_at(t, i - 1);
    }
}

/// Copy a byte string.
pub fn copy_bytes(src: &Vec<u8>) -> (r: Vec<u8>)
    ensures
        r@ == src@,
{
    let n = src.len();
    let mut r: Vec<u8> = Vec::new();
    let mut i: usize = 0;
    while i < n
        invariant
            n == src@.len(),
            i <= n,
            r@ == src@.subrange(0, i as int),
        decreases n - i,
    {
        r.push(src[i]);
        assert(r@ == src@.subrange(0, i as int + 1));
        i = i + 1;
    }
    assert(src@.subrange(0, n as int) =~= src@);
    r
}

/// Position of the first null byte of `buf`, or its length when none occurs.
fn find_null(buf: &Vec<u8>) -> (i: usize)
    ensures
        i as int == first_null(buf@),
{
    let n = buf.len();
    let mut i: usize = 0;
    while i < n
        invariant
            n == buf@.len(),
            i <= n,
            forall|j: int| 0 <= j < i ==> buf@[j] != 0,
        decreases n - i,
    {
        if buf[i] == 0 {
            proof {
                lemma_first_null_at(buf@, i as int);
            }
            return i;
        }
        i = i + 1;
    }
    proof {
        lemma_first_null_at(buf@, i as int);
    }
    i
}

/// Marshal incoming text from the host: copy the payload of a
/// null-terminated buffer out, insisting that it be well-formed UTF-8.
///
/// Absence of a terminator or a malformed payload yields `None`; no text is
/// ever truncated or substituted.
pub fn str_from_c(buf: &Vec<u8>) -> (r: Option<Vec<u8>>)
    ensures
        match r {
            Some(t) => {
                &&& first_null(buf@) < buf@.len()
                &&& t@ == c_prefix(buf@)
                &&& text_ok(t@)
            },
            None => first_null(buf@) == buf@.len() || !is_utf8(c_prefix(buf@)),
        },
{
    let i = find_null(buf);
    proof {
        lemma_first_null(buf@);
    }
    if i == buf.len() {
        return None;
    }
    let mut t: Vec<u8> = Vec::new();
    let mut j: usize = 0;
    while j < i
        invariant
            i < buf@.len(),
            j <= i,
            t@ == buf@.subrange(0, j as int),
        decreases i - j,
    {
        t.push(buf[j]);
        assert(t@ == buf@.subrange(0, j as int + 1));
        j = j + 1;
    }
    if check_utf8(&t) {
        assert(no_interior_null(t@));
        Some(t)
    } else {
        None
    }
}

} // verus!
