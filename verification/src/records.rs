//! Row types of the relational model.
//!
//! Every persisted table row is a plain-value struct: opaque 64-bit ids,
//! UTF-8 names, and timestamps carried as milliseconds since the epoch.
//! Soft deletion is a flag on the row; a soft-deleted row stays in its
//! table.

use vstd::prelude::*;

verus! {

/// Whether a document row is a leaf document or a folder.
#[derive(Clone, Copy, Debug, PartialEq, Eq, Structural)]
pub enum DocKind {
    Doc,
    Folder,
}

impl DocKind {
    /// The label the `type` column stores for this kind.
    pub open spec fn spec_label(self) -> Seq<char> {
        match self {
            DocKind::Doc => "doc"@,
            DocKind::Folder => "folder"@,
        }
    }

    /// The label the `type` column stores for this kind.
    pub fn label(&self) -> (r: &'static str)
        ensures
            r@ == self.spec_label(),
    {
        match self {
            DocKind::Doc => "doc",
            DocKind::Folder => "folder",
        }
    }
}

/// A document or folder row.
#[derive(Debug)]
pub struct DocRecord {
    pub did: i64,
    pub uid: i64,
    pub doc_name: String,
    pub size: i64,
    pub kind: DocKind,
    /// Storage path of the uploaded bytes; empty for folders.
    pub location: String,
    pub created_at: i64,
    pub updated_at: i64,
    pub is_deleted: bool,
}

impl Clone for DocRecord {
    fn clone(&self) -> (r: Self)
        ensures
            r == *self,
    {
        DocRecord {
            did: self.did,
            uid: self.uid,
            doc_name: self.doc_name.clone(),
            size: self.size,
            kind: self.kind,
            location: self.location.clone(),
            created_at: self.created_at,
            updated_at: self.updated_at,
            is_deleted: self.is_deleted,
        }
    }
}

/// The caller-supplied fields of a new document row.
#[derive(Debug)]
pub struct NewDoc {
    pub uid: i64,
    pub doc_name: String,
    pub size: i64,
    pub kind: DocKind,
    pub location: String,
}

/// One parent/child edge of the folder forest: `did` sits under `parent_id`.
#[derive(Clone, Copy, Debug, PartialEq, Eq, Structural)]
pub struct DocEdge {
    pub id: i64,
    pub parent_id: i64,
    pub did: i64,
}

/// A tag row: an optional pattern matched against document names, and an
/// optional folder scope (`folder_id == 0` means unscoped).
#[derive(Debug)]
pub struct TagRecord {
    pub tid: i64,
    pub uid: i64,
    pub tag_name: String,
    pub regx: String,
    pub color: i16,
    pub icon: i16,
    pub folder_id: i64,
    pub created_at: i64,
    pub updated_at: i64,
}

impl Clone for TagRecord {
    fn clone(&self) -> (r: Self)
        ensures
            r == *self,
    {
        TagRecord {
            tid: self.tid,
            uid: self.uid,
            tag_name: self.tag_name.clone(),
            regx: self.regx.clone(),
            color: self.color,
            icon: self.icon,
            folder_id: self.folder_id,
            created_at: self.created_at,
            updated_at: self.updated_at,
        }
    }
}

/// The caller-supplied fields of a new tag row.
#[derive(Debug)]
pub struct NewTag {
    pub uid: i64,
    pub tag_name: String,
    pub regx: String,
    pub color: i16,
    pub icon: i16,
    pub folder_id: i64,
}

/// A knowledge-base row.
#[derive(Debug)]
pub struct KbRecord {
    pub kb_id: i64,
    pub uid: i64,
    pub kb_name: String,
    pub icon: i16,
    pub created_at: i64,
    pub updated_at: i64,
    pub is_deleted: bool,
}

impl Clone for KbRecord {
    fn clone(&self) -> (r: Self)
        ensures
            r == *self,
    {
        KbRecord {
            kb_id: self.kb_id,
            uid: self.uid,
            kb_name: self.kb_name.clone(),
            icon: self.icon,
            created_at: self.created_at,
            updated_at: self.updated_at,
            is_deleted: self.is_deleted,
        }
    }
}

/// The caller-supplied fields of a new knowledge-base row.
#[derive(Debug)]
pub struct NewKb {
    pub uid: i64,
    pub kb_name: String,
    pub icon: i16,
}

/// A knowledge-base/document link, carrying per-link ingestion state.
/// Progress is an integer per-mille value. Links are never hard-deleted;
/// removal soft-marks the link and resets the progress fields.
#[derive(Debug)]
pub struct KbDocLink {
    pub id: i64,
    pub kb_id: i64,
    pub did: i64,
    pub kb_progress: i64,
    pub kb_progress_msg: String,
    pub updated_at: i64,
    pub is_deleted: bool,
}

impl Clone for KbDocLink {
    fn clone(&self) -> (r: Self)
        ensures
            r == *self,
    {
        KbDocLink {
            id: self.id,
            kb_id: self.kb_id,
            did: self.did,
            kb_progress: self.kb_progress,
            kb_progress_msg: self.kb_progress_msg.clone(),
            updated_at: self.updated_at,
            is_deleted: self.is_deleted,
        }
    }
}

/// A dialog row: a named conversation scoped to one knowledge base, whose
/// history is an opaque serialized blob.
#[derive(Debug)]
pub struct DialogRecord {
    pub dialog_id: i64,
    pub uid: i64,
    pub kb_id: i64,
    pub dialog_name: String,
    pub history: String,
    pub created_at: i64,
    pub updated_at: i64,
    pub is_deleted: bool,
}

impl Clone for DialogRecord {
    fn clone(&self) -> (r: Self)
        ensures
            r == *self,
    {
        DialogRecord {
            dialog_id: self.dialog_id,
            uid: self.uid,
            kb_id: self.kb_id,
            dialog_name: self.dialog_name.clone(),
            history: self.history.clone(),
            created_at: self.created_at,
            updated_at: self.updated_at,
            is_deleted: self.is_deleted,
        }
    }
}

/// A user row. The password is an opaque credential compared by equality.
#[derive(Debug)]
pub struct UserRecord {
    pub uid: i64,
    pub email: String,
    pub nickname: String,
    pub avatar_base64: String,
    pub color_scheme: String,
    pub list_style: String,
    pub language: String,
    pub password: String,
    pub last_login_at: i64,
    pub created_at: i64,
    pub updated_at: i64,
}

impl Clone for UserRecord {
    fn clone(&self) -> (r: Self)
        ensures
            r == *self,
    {
        UserRecord {
            uid: self.uid,
            email: self.email.clone(),
            nickname: self.nickname.clone(),
            avatar_base64: self.avatar_base64.clone(),
            color_scheme: self.color_scheme.clone(),
            list_style: self.list_style.clone(),
            language: self.language.clone(),
            password: self.password.clone(),
            last_login_at: self.last_login_at,
            created_at: self.created_at,
            updated_at: self.updated_at,
        }
    }
}

/// The caller-supplied fields of a new user row.
#[derive(Debug)]
pub struct NewUser {
    pub email: String,
    pub nickname: String,
    pub avatar_base64: String,
    pub color_scheme: String,
    pub list_style: String,
    pub language: String,
    pub password: String,
}

} // verus!
