//! Watching the clipboard's text in the standalone application: text is
//! new when it is not empty and its length or hash differs from the last
//! text seen. Reading the clipboard is left to the shell.

use vstd::prelude::*;
use vstd::utf8::encode_utf8;

verus! {

/// What `std`'s default hasher (`DefaultHasher::new`) gives for a string
/// hashed with `Hash`.
pub uninterp spec fn default_hash_of_str(text: Seq<char>) -> u64;

/// The hash of `text`.
///
/// Calls `Hash::hash` on the string with a fresh
/// `std::collections::hash_map::DefaultHasher` and `Hasher::finish`. The
/// default hasher starts from fixed keys, so the result depends on the
/// text alone; the contract names it [`default_hash_of_str`].
#[verifier::external_body]
pub fn content_hash(text: &str) -> (r: u64)
    ensures
        r == default_hash_of_str(text@),
{
    let mut hasher = std::collections::hash_map::DefaultHasher::new();
    std::hash::Hash::hash(text, &mut hasher);
    std::hash::Hasher::finish(&hasher)
}

/// New clipboard text.
#[derive(Debug, Clone)]
pub struct ClipboardEvent {
    pub text: String,
}

/// The length (in UTF-8 bytes) and hash of the last text seen.
#[derive(Debug, Clone, Copy)]
pub struct TextWatch {
    pub last_hash: u64,
    pub last_len: usize,
}

impl TextWatch {
    /// A watch that has seen nothing, or the text on the clipboard at start.
    pub fn new(initial: &Option<String>) -> (r: Self)
        ensures
            match initial {
                Some(t) => r.last_hash == default_hash_of_str(t@) && r.last_len == encode_utf8(t@).len() as usize,
                None => r.last_hash == 0 && r.last_len == 0,
            },
    {
        match initial {
            Some(t) => TextWatch { last_hash: content_hash(t.as_str()), last_len: t.as_str().len() },
            None => TextWatch { last_hash: 0, last_len: 0 },
        }
    }

    /// One look at the clipboard's text: non-empty text whose length or
    /// hash differs from the last is new; it is remembered and returned.
    pub fn look(&mut self, text: Option<String>) -> (r: Option<ClipboardEvent>)
        ensures
            match text {
                Some(t) => if t@.len() > 0 && (encode_utf8(t@).len() as usize != old(self).last_len
                    || default_hash_of_str(t@) != old(self).last_hash) {
                    r matches Some(e) && e.text@ == t@ && final(self).last_hash == default_hash_of_str(t@)
                        && final(self).last_len == encode_utf8(t@).len() as usize
                } else {
                    r is None && *final(self) == *old(self)
                },
                None => r is None && *final(self) == *old(self),
            },
    {
        match text {
            Some(t) => {
                if t.as_str().is_empty() {
                    return None;
                }
                let len = t.as_str().len();
                let h = content_hash(t.as_str());
                if len == self.last_len && h == self.last_hash {
                    return None;
                }
                self.last_len = len;
                self.last_hash = h;
                Some(ClipboardEvent { text: t })
            },
            None => None,
        }
    }
}

/// The last clipboard text seen, compared in full.
pub struct ContentWatch {
    pub last_content: String,
}

impl ContentWatch {
    /// A watch that has seen the text on the clipboard at start (empty when
    /// there was none).
    pub fn new(initial: Option<String>) -> (r: Self)
        ensures
            r.last_content@ == match initial {
                Some(t) => t@,
                None => Seq::<char>::empty(),
            },
    {
        match initial {
            Some(t) => ContentWatch { last_content: t },
            None => ContentWatch { last_content: String::new() },
        }
    }

    /// One look at the clipboard's text: non-empty text other than the last
    /// is new; it is remembered and returned.
    pub fn look(&mut self, text: Option<String>) -> (r: Option<String>)
        ensures
            match text {
                Some(t) => if t@.len() > 0 && t@ != old(self).last_content@ {
                    r matches Some(n) && n@ == t@ && final(self).last_content@ == t@
                } else {
                    r is None && final(self).last_content@ == old(self).last_content@
                },
                None => r is None && final(self).last_content@ == old(self).last_content@,
            },
    {
        match text {
            Some(t) => {
                if t.as_str().is_empty() || t == self.last_content {
                    return None;
                }
                self.last_content = t.clone();
                Some(t)
            },
            None => None,
        }
    }
}

} // verus!
