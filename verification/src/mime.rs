//! MIME classification: a pure, total function from a MIME string to a
//! closed kind set. Unknown strings fall into `Others`.

use vstd::prelude::*;

use crate::text::{has_prefix, str_eq, str_starts_with};

verus! {

/// The closed set of preview kinds a MIME string classifies into.
#[derive(Clone, Copy, Debug, PartialEq, Eq, Structural)]
pub enum MimeKind {
    Dir,
    JSON,
    Text,
    Image,
    Video,
    PDF,
    Archive,
    Others,
}

/// The archive MIME labels the previewer recognises.
pub open spec fn is_archive_mime(s: Seq<char>) -> bool {
    ||| s == "application/zip"@
    ||| s == "application/gzip"@
    ||| s == "application/x-tar"@
    ||| s == "application/x-bzip"@
    ||| s == "application/x-bzip2"@
    ||| s == "application/x-7z-compressed"@
    ||| s == "application/x-rar"@
    ||| s == "application/xz"@
}

/// Classification of a MIME string, total over all strings.
pub open spec fn mime_kind_of(s: Seq<char>) -> MimeKind {
    if s == "inode/directory"@ {
        MimeKind::Dir
    } else if s == "application/json"@ {
        MimeKind::JSON
    } else if has_prefix(s, "text/"@) {
        MimeKind::Text
    } else if has_prefix(s, "image/"@) {
        MimeKind::Image
    } else if has_prefix(s, "video/"@) {
        MimeKind::Video
    } else if s == "application/pdf"@ {
        MimeKind::PDF
    } else if is_archive_mime(s) {
        MimeKind::Archive
    } else {
        MimeKind::Others
    }
}

/// A representative MIME string of each kind, mapped back to that kind by
/// classification.
pub open spec fn spec_canonical(k: MimeKind) -> Seq<char> {
    match k {
        MimeKind::Dir => "inode/directory"@,
        MimeKind::JSON => "application/json"@,
        MimeKind::Text => "text/plain"@,
        MimeKind::Image => "image/png"@,
        MimeKind::Video => "video/mp4"@,
        MimeKind::PDF => "application/pdf"@,
        MimeKind::Archive => "application/zip"@,
        MimeKind::Others => "application/octet-stream"@,
    }
}

impl MimeKind {
    /// Classify a MIME string. Total: every string maps to a kind,
    /// unknown ones to `Others`.
    pub fn new(s: &str) -> (k: MimeKind)
        ensures
            k == mime_kind_of(s@),
    {
        if str_eq(s, "inode/directory") {
            MimeKind::Dir
        } else if str_eq(s, "application/json") {
            MimeKind::JSON
        } else if str_starts_with(s, "text/") {
            MimeKind::Text
        } else if str_starts_with(s, "image/") {
            MimeKind::Image
        } else if str_starts_with(s, "video/") {
            MimeKind::Video
        } else if str_eq(s, "application/pdf") {
            MimeKind::PDF
        } else if str_eq(s, "application/zip") || str_eq(s, "application/gzip") || str_eq(
            s,
            "application/x-tar",
        ) || str_eq(s, "application/x-bzip") || str_eq(s, "application/x-bzip2") || str_eq(
            s,
            "application/x-7z-compressed",
        ) || str_eq(s, "application/x-rar") || str_eq(s, "application/xz") {
            MimeKind::Archive
        } else {
            MimeKind::Others
        }
    }

    /// The representative MIME string of this kind.
    pub fn canonical(self) -> (r: &'static str)
        ensures
            r@ == spec_canonical(self),
    {
        match self {
            MimeKind::Dir => "inode/directory",
            MimeKind::JSON => "application/json",
            MimeKind::Text => "text/plain",
            MimeKind::Image => "image/png",
            MimeKind::Video => "video/mp4",
            MimeKind::PDF => "application/pdf",
            MimeKind::Archive => "application/zip",
            MimeKind::Others => "application/octet-stream",
        }
    }
}

/// Classification is idempotent on canonical forms: the representative
/// string of each kind classifies back to that kind.
pub proof fn lemma_mime_round_trip(k: MimeKind)
    ensures
        mime_kind_of(spec_canonical(k)) == k,
{
    broadcast use vstd::string::group_string_axioms;

    reveal_strlit("inode/directory");
    reveal_strlit("application/json");
    reveal_strlit("text/");
    reveal_strlit("text/plain");
    reveal_strlit("image/");
    reveal_strlit("image/png");
    reveal_strlit("video/");
    reveal_strlit("video/mp4");
    reveal_strlit("application/pdf");
    reveal_strlit("application/zip");
    reveal_strlit("application/gzip");
    reveal_strlit("application/x-tar");
    reveal_strlit("application/x-bzip");
    reveal_strlit("application/x-bzip2");
    reveal_strlit("application/x-7z-compressed");
    reveal_strlit("application/x-rar");
    reveal_strlit("application/xz");
    reveal_strlit("application/octet-stream");
    match k {
        MimeKind::Dir => {
        },
        MimeKind::JSON => {
            assert("application/json"@.len() == 16);
            assert("inode/directory"@.len() == 15);
        },
        MimeKind::Text => {
            assert(has_prefix("text/plain"@, "text/"@)) by {
                assert("text/plain"@.subrange(0, 5) =~= "text/"@);
            }
        },
        MimeKind::Image => {
            lemma_not_prefix("image/png"@, "text/"@);
            assert(has_prefix("image/png"@, "image/"@)) by {
                assert("image/png"@.subrange(0, 6) =~= "image/"@);
            }
        },
        MimeKind::Video => {
            lemma_not_prefix("video/mp4"@, "text/"@);
            lemma_not_prefix("video/mp4"@, "image/"@);
            assert(has_prefix("video/mp4"@, "video/"@)) by {
                assert("video/mp4"@.subrange(0, 6) =~= "video/"@);
            }
        },
        MimeKind::PDF => {
            lemma_not_prefix("application/pdf"@, "text/"@);
            lemma_not_prefix("application/pdf"@, "image/"@);
            lemma_not_prefix("application/pdf"@, "video/"@);
        },
        MimeKind::Archive => {
            lemma_not_prefix("application/zip"@, "text/"@);
            lemma_not_prefix("application/zip"@, "image/"@);
            lemma_not_prefix("application/zip"@, "video/"@);
            assert("application/zip"@.len() == 15);
            assert("application/json"@.len() == 16);
            assert("application/zip"@[0] == 'a' && "inode/directory"@[0] == 'i');
            assert("application/zip"@[12] == 'z' && "application/pdf"@[12] == 'p');
        },
        MimeKind::Others => {
            lemma_not_prefix("application/octet-stream"@, "text/"@);
            lemma_not_prefix("application/octet-stream"@, "image/"@);
            lemma_not_prefix("application/octet-stream"@, "video/"@);
        },
    }
}

/// Two sequences whose first characters differ rule out the prefix
/// relation.
proof fn lemma_not_prefix(s: Seq<char>, p: Seq<char>)
    requires
        s.len() > 0,
        p.len() > 0,
        s[0] != p[0],
    ensures
        !has_prefix(s, p),
{
    if has_prefix(s, p) {
        assert(s.subrange(0, p.len() as int)[0] == s[0]);
    }
}

} // verus!
