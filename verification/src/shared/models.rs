//! The records that the store hands out and the error type of the mobile
//! bridge.

use vstd::prelude::*;

verus! {

/// The error reported across the mobile bridge.
#[derive(Debug)]
pub enum PasteBridgeError {
    /// A generic failure; the message is shown to the user as it is.
    Generic { message: String },
}

impl PasteBridgeError {
    /// A generic error carrying `message`.
    pub fn generic(message: String) -> (r: Self)
        ensures
            r == (PasteBridgeError::Generic { message }),
    {
        PasteBridgeError::Generic { message }
    }

    /// The text shown for the error: its message.
    pub fn to_string(&self) -> (r: String)
        ensures
            r@ == match self {
                PasteBridgeError::Generic { message } => message@,
            },
    {
        match self {
            PasteBridgeError::Generic { message } => message.clone(),
        }
    }
}

impl From<String> for PasteBridgeError {
    fn from(message: String) -> (r: Self) {
        PasteBridgeError::Generic { message }
    }
}

impl vstd::std_specs::convert::FromSpecImpl<String> for PasteBridgeError {
    open spec fn obeys_from_spec() -> bool {
        true
    }

    open spec fn from_spec(v: String) -> Self {
        PasteBridgeError::Generic { message: v }
    }
}

/// The kind of a clipboard record.
#[derive(Debug, Clone, Copy, PartialEq, Eq, Structural)]
pub enum ContentType {
    Text,
    Image,
}

/// A clipboard record as the store hands it out.
#[derive(Debug, Clone)]
pub struct ClipboardItem {
    pub id: i64,
    pub content_type: ContentType,
    pub content_text: Option<String>,
    pub content_hash: String,
    pub mime_type: Option<String>,
    pub file_size: Option<i64>,
    pub width: Option<i32>,
    pub height: Option<i32>,
    pub source_ip: Option<String>,
    pub created_at: i64,
    pub is_favorite: bool,
}

/// The view of an optional string: its characters, when present.
pub open spec fn opt_str(o: Option<String>) -> Option<Seq<char>> {
    match o {
        Some(s) => Some(s@),
        None => None,
    }
}

/// The mathematical content of a [`ClipboardItem`].
pub struct ClipboardItemView {
    pub id: i64,
    pub content_type: ContentType,
    pub content_text: Option<Seq<char>>,
    pub content_hash: Seq<char>,
    pub mime_type: Option<Seq<char>>,
    pub file_size: Option<i64>,
    pub width: Option<i32>,
    pub height: Option<i32>,
    pub source_ip: Option<Seq<char>>,
    pub created_at: i64,
    pub is_favorite: bool,
}

impl View for ClipboardItem {
    type V = ClipboardItemView;

    open spec fn view(&self) -> ClipboardItemView {
        ClipboardItemView {
            id: self.id,
            content_type: self.content_type,
            content_text: opt_str(self.content_text),
            content_hash: self.content_hash@,
            mime_type: opt_str(self.mime_type),
            file_size: self.file_size,
            width: self.width,
            height: self.height,
            source_ip: opt_str(self.source_ip),
            created_at: self.created_at,
            is_favorite: self.is_favorite,
        }
    }
}

/// A favorite folder as the store hands it out.
#[derive(Debug, Clone)]
pub struct FavoriteFolder {
    pub id: i64,
    pub name: String,
    pub sort_order: i32,
    pub created_at: i64,
}

/// The mathematical content of a [`FavoriteFolder`].
pub struct FavoriteFolderView {
    pub id: i64,
    pub name: Seq<char>,
    pub sort_order: i32,
    pub created_at: i64,
}

impl View for FavoriteFolder {
    type V = FavoriteFolderView;

    open spec fn view(&self) -> FavoriteFolderView {
        FavoriteFolderView {
            id: self.id,
            name: self.name@,
            sort_order: self.sort_order,
            created_at: self.created_at,
        }
    }
}

/// A copy of an optional string with the same characters.
pub fn clone_opt_string(o: &Option<String>) -> (r: Option<String>)
    ensures
        opt_str(r) == opt_str(*o),
{
    match o {
        Some(s) => Some(s.clone()),
        None => None,
    }
}

/// A copy of an optional byte vector with the same bytes.
pub fn clone_opt_bytes(o: &Option<Vec<u8>>) -> (r: Option<Vec<u8>>)
    ensures
        opt_bytes(r) == opt_bytes(*o),
{
    match o {
        Some(v) => {
            let c = v.clone();
            assert(c@ =~= v@);
            Some(c)
        },
        None => None,
    }
}

/// The view of an optional byte vector: its bytes, when present.
pub open spec fn opt_bytes(o: Option<Vec<u8>>) -> Option<Seq<u8>> {
    match o {
        Some(v) => Some(v@),
        None => None,
    }
}

} // verus!
