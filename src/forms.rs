//! What the admin screens submit and show, and how a submission becomes content.

use vstd::prelude::*;
use crate::catalog::Project;
use crate::content::{decode_spec, form_to_block_content, BlockContent};
use crate::date::{date_min, date_of, parse_date, parse_date_option};
use crate::text::owned;

verus! {

/// A confirmation to delete something.
pub struct DeleteForm {
    pub authenticity_token: String,
}

/// A request to publish the static site.
pub struct DeployForm {
    pub authenticity_token: String,
}

/// A project as the project form submits it.
pub struct ProjectForm {
    pub title: String,
    pub slug: String,
    pub description: Option<String>,
    pub start_date: String,
    pub end_date: Option<String>,
    pub authenticity_token: String,
}

/// The block type asked for when a new block is started.
pub struct NewBlockQuery {
    pub block_type: String,
}

/// A block as the block form submits it.
pub struct BlockForm {
    pub block_type: String,
    pub sort_order: i32,
    pub content: String,
    pub authenticity_token: String,
}

/// New login credentials.
pub struct CredentialsForm {
    pub username: String,
    pub password: String,
    pub authenticity_token: String,
}

/// A page as the page form submits it.
pub struct PageForm {
    pub title: String,
    pub content: String,
    pub authenticity_token: String,
}

/// A login attempt.
pub struct LoginRequest {
    pub username: String,
    pub password: String,
    pub authenticity_token: String,
}

/// The query of the login screen.
pub struct LoginQuery {
    pub error: Option<String>,
}

/// The answer to a successful upload.
pub struct UploadResponse {
    pub url: String,
    pub original_name: String,
}

/// What the settings screen shows.
pub struct SettingsTemplate {
    pub current_username: String,
}

/// What the login screen shows.
pub struct LoginTemplate {
    pub error: Option<String>,
}

impl ProjectForm {
    /// The project that this submission describes, under id `id`: the start date
    /// falls back to `date_min()` where it cannot be read, and an unreadable end date
    /// is left out.
    pub fn into_project(self, id: u128) -> (r: Project)
        ensures
            r.id == id,
            r.title == self.title,
            r.slug == self.slug,
            r.description == self.description,
            r.start_date == match date_of(self.start_date@) {
                Some(d) => d,
                None => date_min(),
            },
            r.end_date == match self.end_date {
                Some(t) => date_of(t@),
                None => None,
            },
            r.thumbnail_url is None,
            r.start_date.wf(),
            r.end_date matches Some(e) ==> e.wf(),
    {
        let start_date = parse_date(self.start_date.as_str());
        let end_date = parse_date_option(self.end_date);
        Project {
            id,
            title: self.title,
            slug: self.slug,
            description: self.description,
            start_date,
            end_date,
            thumbnail_url: None,
        }
    }
}

impl BlockForm {
    /// The payload that this submission describes.
    pub fn block_content(&self) -> (r: BlockContent)
        ensures
            r@ == decode_spec(self.block_type@, self.content@),
    {
        form_to_block_content(self.block_type.as_str(), self.content.as_str())
    }
}

/// Whether a submitted anti-forgery token matches the one stored in the session;
/// without a stored token nothing matches.
pub fn csrf_token_valid(stored: &Option<String>, token: &str) -> (r: bool)
    ensures
        r == match stored {
            Some(s) => s@ == token@,
            None => false,
        },
{
    match stored {
        Some(s) => *s == owned(token),
        None => false,
    }
}

} // verus!
