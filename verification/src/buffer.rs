//! Text in a buffer of fixed size, ended by a zero byte.
use vstd::prelude::*;
use vstd::utf8::{
    decode_utf8, encode_utf8, encode_utf8_decode_utf8, encode_utf8_valid_utf8, valid_utf8,
};
use crate::text::utf8_text;

verus! {

/// Where the first zero byte of `s` stands, or its length where there is none.
pub open spec fn nul_at(s: Seq<u8>) -> int
    decreases s.len(),
{
    if s.len() == 0 || s[0] == 0 {
        0
    } else {
        1 + nul_at(s.drop_first())
    }
}

/// What a buffer says: its bytes up to the first zero.
pub open spec fn up_to_nul(s: Seq<u8>) -> Seq<u8> {
    s.take(nul_at(s))
}

/// How many bytes of a text of `len` fit in a buffer of `room` beside the zero.
pub open spec fn fitting(len: nat, room: nat) -> int {
    if len < room {
        len as int
    } else {
        room - 1
    }
}

/// A buffer after a text was written over what it held: as much of the text as
/// fits, a zero, and whatever was there before behind it.
pub open spec fn written(was: Seq<u8>, text: Seq<u8>) -> Seq<u8> {
    let n = fitting(text.len(), was.len());
    text.take(n) + seq![0u8] + was.skip(n + 1)
}

/// The text a buffer holds: none where it is empty or not UTF-8.
pub open spec fn held_text(s: Seq<u8>) -> Option<Seq<char>> {
    let said = up_to_nul(s);
    if said.len() > 0 && valid_utf8(said) {
        Some(decode_utf8(said))
    } else {
        None
    }
}

/// The first zero is one, and none stands before it.
pub proof fn first_nul(s: Seq<u8>)
    ensures
        0 <= nul_at(s) <= s.len(),
        nul_at(s) < s.len() ==> s[nul_at(s)] == 0,
        forall|i: int| 0 <= i < nul_at(s) ==> s[i] != 0,
    decreases s.len(),
{
    if s.len() > 0 && s[0] != 0 {
        let rest = s.drop_first();
        first_nul(rest);
        assert forall|i: int| 0 <= i < nul_at(s) implies s[i] != 0 by {
            if i > 0 {
                assert(rest[i - 1] == s[i]);
            }
        }
    }
}

proof fn nul_after(s: Seq<u8>, n: int)
    requires
        0 <= n < s.len(),
        s[n] == 0,
        forall|i: int| 0 <= i < n ==> s[i] != 0,
    ensures
        nul_at(s) == n,
    decreases n,
{
    if n > 0 {
        let rest = s.drop_first();
        assert forall|i: int| 0 <= i < n - 1 implies rest[i] != 0 by {
            assert(rest[i] == s[i + 1]);
        }
        nul_after(rest, n - 1);
    }
}

/// Writes as much of `text` as fits, and a zero behind it.
pub fn write_text(buffer: &mut Vec<u8>, text: &[u8])
    requires
        old(buffer)@.len() > 0,
    ensures
        final(buffer)@ == written(old(buffer)@, text@),
        final(buffer)@.len() == old(buffer)@.len(),
{
    let room: usize = buffer.len();
    let n: usize = if text.len() < room { text.len() } else { room - 1 };
    let ghost was = buffer@;
    for i in 0usize..n
        invariant
            n <= text@.len(),
            n < room,
            room == was.len(),
            buffer@.len() == room,
            buffer@ == text@.take(i as int) + was.skip(i as int),
    {
        buffer.set(i, text[i]);
        assert(buffer@ =~= text@.take(i + 1) + was.skip(i + 1));
    }
    buffer.set(n, 0);
    assert(buffer@ =~= written(was, text@));
}

/// Reads the text a buffer holds, if it holds one.
pub fn read_text(buffer: &Vec<u8>) -> (r: Option<String>)
    ensures
        r is Some <==> held_text(buffer@) is Some,
        r matches Some(t) ==> t@ == held_text(buffer@)->0,
{
    let len: usize = buffer.len();
    let mut n: usize = 0;
    assert(buffer@.skip(0) =~= buffer@);
    while n < len && buffer[n] != 0
        invariant
            len == buffer@.len(),
            0 <= n <= len,
            nul_at(buffer@) == n + nul_at(buffer@.skip(n as int)),
        decreases len - n,
    {
        assert(buffer@.skip(n as int).drop_first() =~= buffer@.skip(n + 1));
        n += 1;
    }
    let said: &[u8] = vstd::slice::slice_subrange(buffer.as_slice(), 0, n);
    assert(said@ =~= up_to_nul(buffer@));
    if said.len() == 0 {
        return None;
    }
    match utf8_text(said) {
        Some(t) => Some(t.to_owned()),
        None => None,
    }
}

/// What was written is what is read, as far as it fits and up to its own first
/// zero, whatever the buffer held before.
pub proof fn reads_back(was: Seq<u8>, text: Seq<u8>)
    requires
        was.len() > 0,
    ensures
        up_to_nul(written(was, text)) == up_to_nul(text.take(fitting(text.len(), was.len()))),
{
    let n = fitting(text.len(), was.len());
    let head = text.take(n);
    let s = written(was, text);
    let k = nul_at(head);
    first_nul(head);
    assert forall|i: int| 0 <= i < k implies s[i] != 0 by {
        assert(s[i] == head[i]);
    }
    if k < n {
        assert(s[k] == head[k]);
    }
    nul_after(s, k);
    assert(s.take(k) =~= head.take(k));
}

/// A text that fits and holds no zero character is read back whole.
pub proof fn whole_text_reads_back(was: Seq<u8>, text: Seq<char>)
    requires
        text.len() > 0,
        encode_utf8(text).len() < was.len(),
        !encode_utf8(text).contains(0u8),
    ensures
        held_text(written(was, encode_utf8(text))) == Some(text),
{
    let bytes = encode_utf8(text);
    reads_back(was, bytes);
    assert(bytes.take(bytes.len() as int) =~= bytes);
    first_nul(bytes);
    assert(nul_at(bytes) == bytes.len()) by {
        if nul_at(bytes) < bytes.len() {
            assert(bytes.contains(bytes[nul_at(bytes)]));
        }
    }
    encode_utf8_valid_utf8(text);
    encode_utf8_decode_utf8(text);
    assert(up_to_nul(bytes) =~= bytes);
    if bytes.len() == 0 {
        assert(bytes =~= encode_utf8(Seq::<char>::empty()));
        encode_utf8_decode_utf8(Seq::<char>::empty());
    }
}

/// A write fills a buffer with as much of the text as leaves room for a zero, puts
/// the zero behind it, and touches nothing else.
pub proof fn a_write_is_the_text_and_a_zero(was: Seq<u8>, text: Seq<u8>)
    requires
        was.len() > 0,
    ensures
        ({
            let n = if text.len() < was.len() {
                text.len() as int
            } else {
                was.len() - 1
            };
            let now = written(was, text);
            &&& now.len() == was.len()
            &&& forall|i: int| 0 <= i < n ==> #[trigger] now[i] == text[i]
            &&& now[n] == 0
            &&& forall|i: int| n < i < was.len() ==> #[trigger] now[i] == was[i]
        }),
{
}

/// What a buffer holds is the UTF-8 before its first zero: nothing where there is
/// none before it, or it is not UTF-8, whatever stands behind.
pub proof fn a_buffer_holds_what_is_before_the_zero(text: Seq<u8>, behind: Seq<u8>)
    requires
        !text.contains(0u8),
    ensures
        ({
            let held = held_text(text + seq![0u8] + behind);
            if text.len() > 0 && valid_utf8(text) {
                held == Some(decode_utf8(text))
            } else {
                held is None
            }
        }),
{
    let s = text + seq![0u8] + behind;
    assert forall|i: int| 0 <= i < text.len() implies s[i] != 0 by {
        assert(text.contains(text[i]));
    }
    assert(s[text.len() as int] == 0);
    nul_after(s, text.len() as int);
    assert(s.take(text.len() as int) =~= text);
}

} // verus!
