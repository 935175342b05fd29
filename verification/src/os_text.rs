//! Paths and arguments of the host.
//!
//! How a path is spelled differs from one operating system to the next: which separators there
//! are, which paths begin at a root, how a text that is not Unicode is stored and shown. Nothing
//! here depends on it. The host joins paths and says how they are shown; the library hands them on.

use vstd::prelude::*;
use vstd::utf8::{decode_utf8, encode_utf8, valid_utf8};

verus! {

/// A text of the host operating system, such as a path or an argument of a program.
#[derive(Debug, PartialEq, Eq)]
pub struct OsText {
    /// The text as the host encodes it. Whatever the host, Unicode text is encoded in UTF-8.
    pub bytes: Vec<u8>,
    /// The text as the host shows it to a user.
    pub shown: String,
}

/// The content of an [`OsText`].
#[verifier::ext_equal]
pub struct OsTextView {
    pub bytes: Seq<u8>,
    pub shown: Seq<char>,
}

impl View for OsText {
    type V = OsTextView;

    open spec fn view(&self) -> OsTextView {
        OsTextView { bytes: self.bytes@, shown: self.shown@ }
    }
}

/// The Unicode text `text` as a text of the host.
pub open spec fn plain_text(text: Seq<char>) -> OsTextView {
    OsTextView { bytes: encode_utf8(text), shown: text }
}

/// What `String::from_utf8_lossy` makes of bytes that are not UTF-8.
pub uninterp spec fn lossy_text(bytes: Seq<u8>) -> Seq<char>;

/// The text that a program printed as `bytes`.
pub open spec fn printed_text(bytes: Seq<u8>) -> Seq<char> {
    if valid_utf8(bytes) {
        decode_utf8(bytes)
    } else {
        lossy_text(bytes)
    }
}

/// Calls `String::from_utf8_lossy` of the standard library, which decodes UTF-8 and puts
/// replacement characters where the bytes are none. What it makes of such bytes is only given
/// a name.
#[verifier::external_body]
fn from_utf8_lossy(bytes: &[u8]) -> (text: String)
    ensures
        text@ == (if valid_utf8(bytes@) {
            decode_utf8(bytes@)
        } else {
            lossy_text(bytes@)
        }),
{
    String::from_utf8_lossy(bytes).into_owned()
}

/// The text that a program printed as `bytes`.
pub fn read_printed(bytes: &[u8]) -> (text: String)
    ensures
        text@ == printed_text(bytes@),
{
    from_utf8_lossy(bytes)
}

/// Whether two byte strings are the same.
pub fn same_bytes(a: &[u8], b: &[u8]) -> (same: bool)
    ensures
        same == (a@ == b@),
{
    if a.len() != b.len() {
        return false;
    }
    for i in 0..a.len()
        invariant
            a@.len() == b@.len(),
            forall|j: int| 0 <= j < i ==> a@[j] == b@[j],
    {
        if a[i] != b[i] {
            return false;
        }
    }
    assert(a@ == b@);
    true
}

impl Clone for OsText {
    fn clone(&self) -> (copy: OsText)
        ensures
            copy@ == self@,
    {
        let mut bytes: Vec<u8> = Vec::new();
        for i in 0..self.bytes.len()
            invariant
                bytes@ == self.bytes@.take(i as int),
        {
            bytes.push(self.bytes[i]);
            assert(self.bytes@.take(i + 1) == self.bytes@.take(i as int).push(
                self.bytes@[i as int],
            ));
        }
        assert(self.bytes@.take(self.bytes.len() as int) == self.bytes@);
        OsText { bytes, shown: self.shown.clone() }
    }
}

impl OsText {
    /// The Unicode text `text` as a text of the host.
    pub fn from_text(text: &str) -> (result: OsText)
        ensures
            result@ == plain_text(text@),
    {
        OsText { bytes: text.as_bytes_vec(), shown: text.to_owned() }
    }

    /// The text that a user is shown.
    pub fn display(&self) -> (text: String)
        ensures
            text@ == self@.shown,
    {
        self.shown.clone()
    }
}

} // verus!
