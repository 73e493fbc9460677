//! Password buffers that are wiped when they are cleared or dropped.
use crate::secret::{seal_secret, SecretBytes};
use crate::text::utf8_text;
use crate::wipe::{wipe_bytes, wipe_string};
use vstd::prelude::*;
use vstd::utf8::*;

verus! {

/// Bytes reserved up front, so that ordinary passwords never move in memory.
const SECURE_BUF_INIT_CAP: usize = 256;

/// A growable password buffer, modelled as the characters typed into it.
pub struct SecureBuffer {
    buf: Vec<u8>,
}

impl View for SecureBuffer {
    type V = Seq<char>;

    closed spec fn view(&self) -> Seq<char> {
        decode_utf8(self.buf@)
    }
}

impl SecureBuffer {
    /// The stored bytes always encode a character sequence.
    #[verifier::type_invariant]
    closed spec fn wf(self) -> bool {
        valid_utf8(self.buf@)
    }

    /// Appends a character, encoded as UTF-8.
    pub fn push(&mut self, c: char)
        ensures
            final(self)@ == old(self)@.push(c),
    {
        proof {
            use_type_invariant(&*self);
        }
        let mut buf: Vec<u8> = Vec::new();
        std::mem::swap(&mut buf, &mut self.buf);
        let ghost before = buf@;
        let scalar: u32 = c as u32;
        if scalar <= 0x7F {
            buf.push((scalar & 0x7F) as u8);
        } else if scalar <= 0x7FF {
            buf.push(0xC0 | ((scalar >> 6) & 0x1F) as u8);
            buf.push(0x80 | (scalar & 0x3F) as u8);
        } else if scalar <= 0xFFFF {
            buf.push(0xE0 | ((scalar >> 12) & 0x0F) as u8);
            buf.push(0x80 | ((scalar >> 6) & 0x3F) as u8);
            buf.push(0x80 | (scalar & 0x3F) as u8);
        } else {
            buf.push(0xF0 | ((scalar >> 18) & 0x7) as u8);
            buf.push(0x80 | ((scalar >> 12) & 0x3F) as u8);
            buf.push(0x80 | ((scalar >> 6) & 0x3F) as u8);
            buf.push(0x80 | (scalar & 0x3F) as u8);
        }
        proof {
            char_is_scalar(c);
            assert(buf@ =~= before + encode_scalar(scalar));
            lemma_append_char(before, c);
        }
        self.buf = buf;
    }

    /// Removes the last character; `false` where there is none.
    pub fn pop(&mut self) -> (removed: bool)
        ensures
            removed == (old(self)@.len() > 0),
            removed ==> final(self)@ == old(self)@.drop_last(),
            !removed ==> final(self)@ == old(self)@,
    {
        proof {
            use_type_invariant(&*self);
            lemma_decode_empty(self.buf@);
        }
        if self.buf.is_empty() {
            return false;
        }
        let mut buf: Vec<u8> = Vec::new();
        std::mem::swap(&mut buf, &mut self.buf);
        let ghost before = buf@;
        let mut i: usize = buf.len() - 1;
        while i > 0 && (buf[i] & 0xC0) == 0x80
            invariant
                buf@ == before,
                i < buf@.len(),
                forall|j: int| i < j < buf@.len() ==> is_continuation_byte(#[trigger] buf@[j]),
            decreases i,
        {
            proof {
                utf8_byte_ranges_bitwise(buf@[i as int]);
            }
            i -= 1;
        }
        proof {
            utf8_byte_ranges_bitwise(buf@[i as int]);
            lemma_last_char(before, i as int);
        }
        let mut j: usize = i;
        while j < buf.len()
            invariant
                i <= j <= buf@.len(),
                buf@.len() == before.len(),
                buf@.take(i as int) == before.take(i as int),
            decreases buf@.len() - j,
        {
            buf[j] = 0;
            j += 1;
        }
        buf.truncate(i);
        assert(buf@ =~= before.subrange(0, i as int));
        self.buf = buf;
        true
    }

    /// Wipes the buffer and leaves it empty.
    pub fn clear_secure(&mut self)
        ensures
            final(self)@ == Seq::<char>::empty(),
        opens_invariants none
        no_unwind
    {
        wipe_bytes(&mut self.buf);
    }

    /// Length in bytes of the UTF-8 encoding, not in characters.
    pub fn len(&self) -> (len: usize)
        ensures
            len == encode_utf8(self@).len(),
    {
        proof {
            use_type_invariant(self);
            decode_utf8_encode_utf8(self.buf@);
        }
        self.buf.len()
    }

    pub fn is_empty(&self) -> (empty: bool)
        ensures
            empty == (self@.len() == 0),
    {
        proof {
            use_type_invariant(self);
            lemma_decode_empty(self.buf@);
        }
        self.buf.is_empty()
    }

    /// The contents as text, for as long as the buffer is borrowed.
    pub fn as_str(&self) -> (text: &str)
        ensures
            text@ == self@,
    {
        proof {
            use_type_invariant(self);
        }
        utf8_text(self.buf.as_slice()).unwrap()
    }

    /// A copy of the bytes, in the form in which the key derivation takes a password.
    pub fn to_secret_vec(&self) -> (secret: SecretBytes)
        ensures
            secret@ == encode_utf8(self@),
    {
        proof {
            use_type_invariant(self);
            decode_utf8_encode_utf8(self.buf@);
        }
        seal_secret(self.buf.clone())
    }

    /// Replaces the contents by `text`, wiping what was there.
    pub fn assign(&mut self, text: &str)
        ensures
            final(self)@ == text@,
    {
        self.clear_secure();
        for c in chars: text.chars()
            invariant
                chars.seq() == text@,
                self@ == text@.take(chars.index()),
        {
            self.push(c);
            assert(text@.take(chars.index() + 1) =~= text@.take(chars.index()).push(c));
        }
        assert(text@.take(text@.len() as int) =~= text@);
    }

    /// Whether both buffers hold the same text.
    pub fn same_text(&self, other: &SecureBuffer) -> (same: bool)
        ensures
            same == (self@ == other@),
    {
        proof {
            use_type_invariant(self);
            use_type_invariant(other);
            decode_utf8_encode_utf8(self.buf@);
            decode_utf8_encode_utf8(other.buf@);
        }
        if self.buf.len() != other.buf.len() {
            return false;
        }
        let mut i: usize = 0;
        while i < self.buf.len()
            invariant
                i <= self.buf@.len() == other.buf@.len(),
                self.buf@.take(i as int) == other.buf@.take(i as int),
                encode_utf8(self@) == self.buf@,
                encode_utf8(other@) == other.buf@,
            decreases self.buf@.len() - i,
        {
            if self.buf[i] != other.buf[i] {
                return false;
            }
            i += 1;
            assert(self.buf@.take(i as int) =~= self.buf@.take(i - 1).push(self.buf@[i - 1]));
            assert(other.buf@.take(i as int) =~= other.buf@.take(i - 1).push(other.buf@[i - 1]));
        }
        assert(self.buf@.take(i as int) =~= self.buf@);
        assert(other.buf@.take(i as int) =~= other.buf@);
        true
    }
}

impl Default for SecureBuffer {
    fn default() -> (buffer: Self)
        ensures
            buffer@ == Seq::<char>::empty(),
    {
        SecureBuffer { buf: Vec::with_capacity(SECURE_BUF_INIT_CAP) }
    }
}

impl Drop for SecureBuffer {
    fn drop(&mut self)
        ensures
            final(self)@ == Seq::<char>::empty(),
        opens_invariants none
        no_unwind
    {
        self.clear_secure();
    }
}

/// A password copied out of a [`SecureBuffer`] for a text field that edits a `String`; the copy
/// is wiped when it is dropped.
pub struct ZeroizingString(String);

impl View for ZeroizingString {
    type V = Seq<char>;

    closed spec fn view(&self) -> Seq<char> {
        self.0@
    }
}

impl ZeroizingString {
    /// A fresh copy of the buffer's text.
    pub fn from_secure(buf: &SecureBuffer) -> (copy: Self)
        ensures
            copy@ == buf@,
    {
        ZeroizingString(buf.as_str().to_owned())
    }

    /// The string that a text field edits in place.
    pub fn as_mut_string(&mut self) -> (text: &mut String)
        ensures
            text@ == old(self)@,
            final(self)@ == final(text)@,
    {
        &mut self.0
    }

    /// The text, for reading an edit back into the buffer.
    pub fn as_str(&self) -> (text: &str)
        ensures
            text@ == self@,
    {
        self.0.as_str()
    }
}

impl Drop for ZeroizingString {
    fn drop(&mut self)
        ensures
            final(self)@ == Seq::<char>::empty(),
        opens_invariants none
        no_unwind
    {
        wipe_string(&mut self.0);
    }
}

/// Removing the last character undoes adding it.
pub proof fn law_pop_undoes_push(text: Seq<char>, c: char)
    ensures
        text.push(c).len() > 0,
        text.push(c).drop_last() == text,
{
    assert(text.push(c).drop_last() =~= text);
}

/// Appending the encoding of a character to valid UTF-8 appends that character.
proof fn lemma_append_char(bytes: Seq<u8>, c: char)
    requires
        valid_utf8(bytes),
    ensures
        valid_utf8(bytes + encode_scalar(c as u32)),
        decode_utf8(bytes + encode_scalar(c as u32)) == decode_utf8(bytes).push(c),
{
    let one = seq![c];
    let tail = encode_scalar(c as u32);
    assert(encode_utf8(one.drop_first()) =~= seq![]);
    assert(encode_utf8(one) =~= tail);
    encode_utf8_valid_utf8(one);
    encode_utf8_decode_utf8(one);
    valid_utf8_concat(bytes, tail);
    lemma_decode_concat(bytes, tail);
    assert(decode_utf8(bytes) + one =~= decode_utf8(bytes).push(c));
}

proof fn lemma_decode_concat(a: Seq<u8>, b: Seq<u8>)
    requires
        valid_utf8(a),
        valid_utf8(b),
    ensures
        valid_utf8(a + b),
        decode_utf8(a + b) == decode_utf8(a) + decode_utf8(b),
    decreases a.len(),
{
    valid_utf8_concat(a, b);
    if a.len() == 0 {
        assert(a + b =~= b);
        assert(decode_utf8(a) + decode_utf8(b) =~= decode_utf8(b));
    } else {
        let rest = pop_first_scalar(a);
        lemma_decode_concat(rest, b);
        assert(pop_first_scalar(a + b) =~= rest + b);
        assert(decode_first_scalar(a + b) == decode_first_scalar(a));
        assert(decode_utf8(a + b) =~= decode_utf8(a) + decode_utf8(b));
    }
}

proof fn lemma_decode_empty(bytes: Seq<u8>)
    requires
        valid_utf8(bytes),
    ensures
        decode_utf8(bytes).len() == 0 <==> bytes.len() == 0,
{
}

/// Where every byte after index `i` continues a character and byte `i` does not, the bytes from
/// `i` on are exactly the last character.
proof fn lemma_last_char(bytes: Seq<u8>, i: int)
    requires
        valid_utf8(bytes),
        0 <= i < bytes.len(),
        i == 0 || !is_continuation_byte(bytes[i]),
        forall|j: int| i < j < bytes.len() ==> is_continuation_byte(#[trigger] bytes[j]),
    ensures
        valid_utf8(bytes.subrange(0, i)),
        decode_utf8(bytes).len() > 0,
        decode_utf8(bytes.subrange(0, i)) == decode_utf8(bytes).drop_last(),
{
    is_char_boundary_iff_not_is_continuation_byte(bytes, i);
    is_char_boundary_start_end_of_seq(bytes);
    valid_utf8_split(bytes, i);
    decode_utf8_split(bytes, i);
    let last = bytes.subrange(i, bytes.len() as int);
    let rest = pop_first_scalar(last);
    assert(valid_utf8(last));
    assert(valid_utf8(rest));
    if rest.len() > 0 {
        assert(is_continuation_byte(rest[0]));
        assert(valid_first_scalar(rest));
        assert(false);
    }
    assert(decode_utf8(rest).len() == 0);
    assert(decode_utf8(last).len() == 1);
    assert(decode_utf8(bytes.subrange(0, i)) =~= decode_utf8(bytes).drop_last());
}

} // verus!
