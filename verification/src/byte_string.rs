//! Strings as the system takes them: bytes, in any encoding or none.
use vstd::prelude::*;

verus! {

/// A string of bytes, such as an argument of a command or the value of an environment variable.
#[derive(Debug, PartialEq, Eq)]
pub struct ByteString {
    pub bytes: Vec<u8>,
}

impl View for ByteString {
    type V = Seq<u8>;

    open spec fn view(&self) -> Seq<u8> {
        self.bytes@
    }
}

impl DeepView for ByteString {
    type V = Seq<u8>;

    open spec fn deep_view(&self) -> Seq<u8> {
        self.bytes@
    }
}

impl ByteString {
    /// The string that the bytes make.
    pub fn from_bytes(bytes: Vec<u8>) -> (string: ByteString)
        ensures
            string@ == bytes@,
    {
        ByteString { bytes }
    }

    /// The bytes of the text in UTF-8.
    pub fn from_text(text: &str) -> (string: ByteString)
        ensures
            string@ == vstd::utf8::encode_utf8(text@),
    {
        ByteString { bytes: vstd::slice::slice_to_vec(text.as_bytes()) }
    }

    /// The bytes of the string.
    pub fn as_bytes(&self) -> (bytes: &[u8])
        ensures
            bytes@ == self@,
    {
        self.bytes.as_slice()
    }

    /// Puts the other string behind this one.
    pub fn append(&mut self, other: &ByteString)
        ensures
            final(self)@ == old(self)@ + other@,
    {
        let mut tail = other.bytes.clone();
        assert(tail@ =~= other@);
        self.bytes.append(&mut tail);
    }
}

impl Clone for ByteString {
    fn clone(&self) -> (copy: ByteString)
        ensures
            copy@ == self@,
    {
        let bytes = self.bytes.clone();
        assert(bytes@ =~= self.bytes@);
        ByteString { bytes }
    }
}

} // verus!
