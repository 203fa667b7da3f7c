//! The bodies and queries of requests, the bodies of some responses, and
//! the checks that a request has to pass before anything is stored.

use vstd::prelude::*;
use vstd::string::StringExecFns;
use vstd::utf8::encode_utf8;
use crate::response::{offset_of, page_of, page_size_of, resolve_offset, resolve_page, resolve_page_size};
use crate::text::{escape_like, escaped};

verus! {

/// The length in bytes of a text, as `str::len` reports it.
pub open spec fn byte_len(text: Seq<char>) -> usize {
    encode_utf8(text).len() as usize
}

/// The shortest password that is accepted, in bytes.
pub const MIN_PASSWORD_LEN: usize = 8;

/// Why a request is turned down before anything is stored.
#[derive(Clone, Copy, Debug, PartialEq, Eq, Structural)]
pub enum Rejection {
    /// A name is required and none was given.
    NameRequired,
    /// Every field is required and one of them is empty.
    FieldsRequired,
    /// The password is shorter than eight bytes.
    PasswordTooShort,
}

/// A new concept.
#[derive(Debug, PartialEq, Eq)]
pub struct CreateConcept {
    pub name: String,
    pub category: Option<String>,
    pub icon: Option<String>,
}

/// Changes to a concept.
#[derive(Debug, PartialEq, Eq)]
pub struct UpdateConcept {
    pub name: Option<String>,
    pub category: Option<String>,
    pub icon: Option<String>,
}

/// A new entity.
#[derive(Debug, PartialEq, Eq)]
pub struct CreateEntity {
    pub name: String,
    pub entity_type: String,
    pub role: Option<String>,
    pub avatar_initials: Option<String>,
}

/// Changes to an entity.
#[derive(Debug, PartialEq, Eq)]
pub struct UpdateEntity {
    pub name: Option<String>,
    pub role: Option<String>,
    pub avatar_initials: Option<String>,
}

/// Which entities to list.
#[derive(Debug, PartialEq, Eq)]
pub struct EntityFilters {
    pub entity_type: Option<String>,
    pub page: Option<i64>,
    pub per_page: Option<i64>,
}

/// A new field trip.
#[derive(Debug, PartialEq, Eq)]
pub struct CreateFieldTrip {
    pub name: String,
    pub icon: Option<String>,
}

/// Changes to a field trip.
#[derive(Debug, PartialEq, Eq)]
pub struct UpdateFieldTrip {
    pub name: Option<String>,
    pub icon: Option<String>,
}

/// A new inventory item.
#[derive(Debug, PartialEq, Eq)]
pub struct CreateInventoryItem {
    pub name: String,
    pub icon: Option<String>,
    pub status: Option<String>,
    pub sort_order: Option<i32>,
}

/// Changes to an inventory item.
#[derive(Debug, PartialEq, Eq)]
pub struct UpdateInventoryItem {
    pub name: Option<String>,
    pub icon: Option<String>,
    pub status: Option<String>,
    pub sort_order: Option<i32>,
}

/// Where to upload a file to.
#[derive(Debug, PartialEq, Eq)]
pub struct PresignResponse {
    pub upload_url: String,
    pub s3_key: String,
}

/// The outcome of a transcription.
#[derive(Debug, PartialEq, Eq)]
pub struct UpdateTranscription {
    pub status: String,
    pub text: Option<String>,
}

/// How many notes a workspace holds.
#[derive(Clone, Copy, Debug, PartialEq, Eq, Structural)]
pub struct NoteCount {
    pub total: i64,
    pub starred: i64,
    pub deleted: i64,
}

/// Changes to a profile.
#[derive(Debug, PartialEq, Eq)]
pub struct UpdateProfileRequest {
    pub display_name: Option<String>,
    pub email: Option<String>,
}

/// A change of password.
#[derive(Debug, PartialEq, Eq)]
pub struct ChangePasswordRequest {
    pub current_password: String,
    pub new_password: String,
}

/// A new tag.
#[derive(Debug, PartialEq, Eq)]
pub struct CreateTag {
    pub name: String,
}

/// A registration.
#[derive(Debug, PartialEq, Eq)]
pub struct RegisterRequest {
    pub email: String,
    pub password: String,
    pub display_name: String,
}

/// A login.
#[derive(Debug, PartialEq, Eq)]
pub struct LoginRequest {
    pub email: String,
    pub password: String,
}

/// The summary of a note.
#[derive(Debug, PartialEq, Eq)]
pub struct SummarizeResponse {
    pub summary: String,
    pub coming_soon: bool,
    pub model: String,
}

/// The continuation of a text.
#[derive(Debug, PartialEq, Eq)]
pub struct CompleteResponse {
    pub completion: String,
    pub coming_soon: bool,
}

/// Whether the assistant is available, and through which provider.
#[derive(Debug, PartialEq, Eq)]
pub struct AiStatusResponse {
    pub enabled: bool,
    pub provider: String,
    pub message: String,
}

/// A search.
#[derive(Debug, PartialEq, Eq)]
pub struct SearchParams {
    pub q: String,
    pub page: Option<i64>,
    pub per_page: Option<i64>,
}

/// The type of a note that names none.
pub fn default_note_type() -> (r: String)
    ensures
        r@ == "field_note"@,
{
    String::from_str("field_note")
}

/// Accepts a name that is not empty.
pub fn require_name(name: &String) -> (r: Result<(), Rejection>)
    ensures
        r == if name@.len() == 0 {
            Err::<(), Rejection>(Rejection::NameRequired)
        } else {
            Ok(())
        },
{
    if name.as_str().is_empty() {
        Err(Rejection::NameRequired)
    } else {
        Ok(())
    }
}

impl CreateConcept {
    /// A concept needs a name.
    pub fn validate(&self) -> (r: Result<(), Rejection>)
        ensures
            r is Ok <==> self.name@.len() > 0,
            r is Err ==> r == Err::<(), Rejection>(Rejection::NameRequired),
    {
        require_name(&self.name)
    }
}

impl CreateEntity {
    /// An entity needs a name.
    pub fn validate(&self) -> (r: Result<(), Rejection>)
        ensures
            r is Ok <==> self.name@.len() > 0,
            r is Err ==> r == Err::<(), Rejection>(Rejection::NameRequired),
    {
        require_name(&self.name)
    }
}

impl CreateFieldTrip {
    /// A field trip needs a name.
    pub fn validate(&self) -> (r: Result<(), Rejection>)
        ensures
            r is Ok <==> self.name@.len() > 0,
            r is Err ==> r == Err::<(), Rejection>(Rejection::NameRequired),
    {
        require_name(&self.name)
    }
}

impl CreateInventoryItem {
    /// An inventory item needs a name.
    pub fn validate(&self) -> (r: Result<(), Rejection>)
        ensures
            r is Ok <==> self.name@.len() > 0,
            r is Err ==> r == Err::<(), Rejection>(Rejection::NameRequired),
    {
        require_name(&self.name)
    }

    /// The status of the item: `packed` where none is given.
    pub fn status_or_default(&self) -> (r: String)
        ensures
            r@ == match self.status {
                Some(status) => status@,
                None => "packed"@,
            },
    {
        match &self.status {
            Some(status) => status.clone(),
            None => String::from_str("packed"),
        }
    }

    /// The place of the item in the list: the first where none is given.
    pub fn sort_order_or_default(&self) -> (r: i32)
        ensures
            r == match self.sort_order {
                Some(n) => n,
                None => 0,
            },
    {
        match self.sort_order {
            Some(n) => n,
            None => 0,
        }
    }
}

impl EntityFilters {
    /// The page asked for, and the first page by default.
    pub fn page(&self) -> (r: i64)
        ensures
            r == page_of(self.page),
            r >= 1,
    {
        resolve_page(self.page)
    }

    /// The page size asked for, between 1 and 100, and 50 by default.
    pub fn per_page(&self) -> (r: i64)
        ensures
            r == page_size_of(self.per_page, 50),
            1 <= r <= 100,
    {
        resolve_page_size(self.per_page, 50)
    }

    /// The number of entities before the page asked for, or `None` where
    /// that number is beyond what an `i64` holds.
    pub fn offset(&self) -> (r: Option<i64>)
        ensures
            r == if offset_of(self.page, self.per_page, 50) <= i64::MAX {
                Some(offset_of(self.page, self.per_page, 50) as i64)
            } else {
                None
            },
    {
        resolve_offset(self.page, self.per_page, 50)
    }
}

impl RegisterRequest {
    /// Whether one of the three fields is empty.
    pub open spec fn has_empty_field(self) -> bool {
        self.email@.len() == 0 || self.password@.len() == 0 || self.display_name@.len() == 0
    }

    /// A registration needs all three fields, and a password of at least
    /// eight bytes. A missing field is reported before a short password.
    pub fn validate(&self) -> (r: Result<(), Rejection>)
        ensures
            r == if self.has_empty_field() {
                Err::<(), Rejection>(Rejection::FieldsRequired)
            } else if byte_len(self.password@) < MIN_PASSWORD_LEN {
                Err(Rejection::PasswordTooShort)
            } else {
                Ok(())
            },
    {
        if self.email.as_str().is_empty() || self.password.as_str().is_empty()
            || self.display_name.as_str().is_empty() {
            Err(Rejection::FieldsRequired)
        } else if self.password.as_str().len() < MIN_PASSWORD_LEN {
            Err(Rejection::PasswordTooShort)
        } else {
            Ok(())
        }
    }
}

impl ChangePasswordRequest {
    /// A new password needs at least eight bytes.
    pub fn validate(&self) -> (r: Result<(), Rejection>)
        ensures
            r == if byte_len(self.new_password@) < MIN_PASSWORD_LEN {
                Err::<(), Rejection>(Rejection::PasswordTooShort)
            } else {
                Ok(())
            },
    {
        if self.new_password.as_str().len() < MIN_PASSWORD_LEN {
            Err(Rejection::PasswordTooShort)
        } else {
            Ok(())
        }
    }
}

impl SearchParams {
    /// The pattern that finds the names which contain the query as it
    /// stands: the escaped query between two percent signs.
    pub fn like_pattern(&self) -> (r: String)
        ensures
            r@ == "%"@ + escaped(self.q@) + "%"@,
    {
        let mut pattern = String::from_str("%");
        let inner = escape_like(self.q.as_str());
        pattern.append(inner.as_str());
        pattern.append("%");
        pattern
    }
}

/// The order in which notes are listed.
#[derive(Clone, Copy, Debug, PartialEq, Eq, Structural)]
pub enum NoteOrder {
    CreatedAscending,
    CreatedDescending,
    UpdatedAscending,
    UpdatedDescending,
    TitleAscending,
    TitleDescending,
}

/// The order that a request asks for. Notes are sorted by the time of their
/// creation unless `updated_at` or `title` is asked for, and the newest or
/// last comes first unless `asc` is asked for.
pub open spec fn order_asked_for(sort: Option<Seq<char>>, order: Option<Seq<char>>) -> NoteOrder {
    let ascending = order == Some("asc"@);
    if sort == Some("updated_at"@) {
        if ascending {
            NoteOrder::UpdatedAscending
        } else {
            NoteOrder::UpdatedDescending
        }
    } else if sort == Some("title"@) {
        if ascending {
            NoteOrder::TitleAscending
        } else {
            NoteOrder::TitleDescending
        }
    } else if ascending {
        NoteOrder::CreatedAscending
    } else {
        NoteOrder::CreatedDescending
    }
}

/// Whether an optional word is there and is `word`.
fn is_word(given: Option<&str>, word: &str) -> (r: bool)
    ensures
        r == match given {
            Some(w) => w@ == word@,
            None => false,
        },
{
    match given {
        Some(w) => crate::text::str_eq(w, word),
        None => false,
    }
}

/// The order in which a request wants its notes.
pub fn note_order(sort: Option<&str>, order: Option<&str>) -> (r: NoteOrder)
    ensures
        r == order_asked_for(
            match sort {
                Some(w) => Some(w@),
                None => None,
            },
            match order {
                Some(w) => Some(w@),
                None => None,
            },
        ),
{
    let ascending = is_word(order, "asc");
    if is_word(sort, "updated_at") {
        if ascending {
            NoteOrder::UpdatedAscending
        } else {
            NoteOrder::UpdatedDescending
        }
    } else if is_word(sort, "title") {
        if ascending {
            NoteOrder::TitleAscending
        } else {
            NoteOrder::TitleDescending
        }
    } else if ascending {
        NoteOrder::CreatedAscending
    } else {
        NoteOrder::CreatedDescending
    }
}

/// The title under which a note is stored: `Untitled` where it has none.
pub fn title_or_default(title: &str) -> (r: String)
    ensures
        r@ == if title@.len() == 0 {
            "Untitled"@
        } else {
            title@
        },
{
    if title.is_empty() {
        String::from_str("Untitled")
    } else {
        String::from_str(title)
    }
}

/// The file extension for an upload whose name gives none: `webm` for a
/// sound recording, and `jpg` for anything else.
pub fn default_extension(media_type: &str) -> (r: &'static str)
    ensures
        r@ == if media_type@ == "audio"@ {
            "webm"@
        } else {
            "jpg"@
        },
{
    if crate::text::str_eq(media_type, "audio") {
        "webm"
    } else {
        "jpg"
    }
}

} // verus!
