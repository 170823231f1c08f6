//! File metadata snapshots: what a stat reports, reduced to plain values,
//! and the construction rules that turn one or two such reports into a
//! `File` with its kind flags and resolved link target.

use vstd::prelude::*;

use crate::url::Url;

verus! {

/// Kind flags of a file: directory, hidden naming, resolved symlink,
/// or a symlink whose chain does not resolve.
#[derive(Clone, Copy, Debug, PartialEq, Eq, Structural)]
pub struct ChaKind {
    pub dir: bool,
    pub hidden: bool,
    pub link: bool,
    pub orphan: bool,
}

impl Default for ChaKind {
    /// No flag set.
    fn default() -> (r: ChaKind)
        ensures
            r == (ChaKind { dir: false, hidden: false, link: false, orphan: false }),
    {
        ChaKind { dir: false, hidden: false, link: false, orphan: false }
    }
}

/// Characteristics of a file, immutable after construction. Instants are
/// microseconds since the epoch; any may be absent.
#[derive(Clone, Copy, Debug)]
pub struct Cha {
    pub kind: ChaKind,
    pub len: u64,
    pub accessed: Option<u64>,
    pub created: Option<u64>,
    pub modified: Option<u64>,
    pub permissions: u32,
    pub uid: u32,
    pub gid: u32,
}

impl Default for Cha {
    /// The characteristics of nothing: no flags, zero length, no
    /// instants, no permissions, no owner.
    fn default() -> (r: Cha)
        ensures
            r == Cha::spec_default(),
    {
        Cha {
            kind: ChaKind { dir: false, hidden: false, link: false, orphan: false },
            len: 0,
            accessed: None,
            created: None,
            modified: None,
            permissions: 0,
            uid: 0,
            gid: 0,
        }
    }
}

impl Cha {
    /// The value `Cha::default()` returns.
    pub open spec fn spec_default() -> Cha {
        Cha {
            kind: ChaKind { dir: false, hidden: false, link: false, orphan: false },
            len: 0,
            accessed: None,
            created: None,
            modified: None,
            permissions: 0,
            uid: 0,
            gid: 0,
        }
    }

    /// Whether the file is a directory.
    pub fn is_dir(&self) -> (r: bool)
        ensures
            r == self.kind.dir,
    {
        self.kind.dir
    }
}

/// What one local stat reports, as plain values.
#[derive(Clone, Copy, Debug)]
pub struct MetaSnapshot {
    pub is_symlink: bool,
    pub is_dir: bool,
    pub len: u64,
    pub accessed: Option<u64>,
    pub created: Option<u64>,
    pub modified: Option<u64>,
    pub permissions: u32,
    pub uid: u32,
    pub gid: u32,
}

/// What a remote scheme's object store reports about a path.
#[derive(Clone, Copy, Debug)]
pub struct RemoteStat {
    pub is_dir: bool,
    pub content_length: u64,
    /// The store's last-modified instant, microseconds since the epoch.
    pub last_modified: Option<u64>,
}

/// Permission bits synthesized for every remote file.
pub const REMOTE_PERMISSIONS: u32 = 0o774;

/// A URL together with its characteristics and, for symlinks whose target
/// resolves, the target.
#[derive(Debug)]
pub struct File {
    pub url: Url,
    pub cha: Cha,
    pub link_to: Option<Url>,
}

/// The characteristics that follow from a local stat `eff`, given the
/// computed kind flags.
pub open spec fn cha_of_meta(eff: MetaSnapshot, kind: ChaKind) -> Cha {
    Cha {
        kind,
        len: eff.len,
        accessed: eff.accessed,
        created: eff.created,
        modified: eff.modified,
        permissions: eff.permissions,
        uid: eff.uid,
        gid: eff.gid,
    }
}

/// The kind flags a local file gets: directory from the effective stat;
/// hidden from leading-dot naming; a symlink is an orphan when the
/// followed stat is still a symlink, a link otherwise.
pub open spec fn kind_of_meta(url: Url, meta: MetaSnapshot, eff: MetaSnapshot) -> ChaKind {
    ChaKind {
        dir: eff.is_dir,
        hidden: url.spec_is_hidden(),
        link: meta.is_symlink && !eff.is_symlink,
        orphan: meta.is_symlink && eff.is_symlink,
    }
}

impl File {
    /// Build a file from the stat of its URL. `meta` is the link stat;
    /// `followed`, present only when `meta` is a symlink and following it
    /// succeeded, is the stat of the target; `link_to` is the target the
    /// link reads as, when it could be read, and is kept only for a
    /// symlink.
    pub fn from_meta(
        url: Url,
        meta: &MetaSnapshot,
        followed: Option<&MetaSnapshot>,
        link_to: Option<Url>,
    ) -> (f: File)
        ensures
            f.url@ == url@,
            f.cha == cha_of_meta(File::effective_meta(*meta, followed_val(followed)), kind_of_meta(url, *meta, File::effective_meta(*meta, followed_val(followed)))),
            meta.is_symlink ==> match (f.link_to, link_to) {
                (Some(a), Some(b)) => a@ == b@,
                (None, None) => true,
                _ => false,
            },
            !meta.is_symlink ==> f.link_to is None,
    {
        let eff: MetaSnapshot = if meta.is_symlink {
            match followed {
                Some(m) => *m,
                None => *meta,
            }
        } else {
            *meta
        };
        let kind = ChaKind {
            dir: eff.is_dir,
            hidden: url.is_hidden(),
            link: meta.is_symlink && !eff.is_symlink,
            orphan: meta.is_symlink && eff.is_symlink,
        };
        File {
            url,
            cha: Cha {
                kind,
                len: eff.len,
                accessed: eff.accessed,
                created: eff.created,
                modified: eff.modified,
                permissions: eff.permissions,
                uid: eff.uid,
                gid: eff.gid,
            },
            link_to: if meta.is_symlink {
                link_to
            } else {
                None
            },
        }
    }

    /// The stat the characteristics are drawn from: the followed stat of
    /// a symlink when following succeeded, the link stat itself otherwise.
    pub open spec fn effective_meta(meta: MetaSnapshot, followed: Option<MetaSnapshot>) -> MetaSnapshot {
        if meta.is_symlink {
            match followed {
                Some(m) => m,
                None => meta,
            }
        } else {
            meta
        }
    }

    /// Build a file from a remote stat. Timestamps other than
    /// last-modified are absent; permissions and ownership are synthesized
    /// constants, not authorization data.
    pub fn from_remote(url: Url, stat: &RemoteStat, uid: u32, gid: u32) -> (f: File)
        ensures
            f.url@ == url@,
            f.cha.kind == (ChaKind { dir: stat.is_dir, hidden: false, link: false, orphan: false }),
            f.cha.len == stat.content_length,
            f.cha.accessed is None,
            f.cha.created is None,
            f.cha.modified == stat.last_modified,
            f.cha.permissions == REMOTE_PERMISSIONS,
            f.cha.uid == uid,
            f.cha.gid == gid,
            f.link_to is None,
    {
        File {
            url,
            cha: Cha {
                kind: ChaKind { dir: stat.is_dir, hidden: false, link: false, orphan: false },
                len: stat.content_length,
                accessed: None,
                created: None,
                modified: stat.last_modified,
                permissions: REMOTE_PERMISSIONS,
                uid,
                gid,
            },
            link_to: None,
        }
    }

    /// A placeholder file: the URL with empty characteristics.
    pub fn from_dummy(url: &Url) -> (f: File)
        ensures
            f.url@ == url@,
            f.cha == Cha::spec_default(),
            f.link_to is None,
    {
        File { url: url.clone(), cha: Cha::default(), link_to: None }
    }

    /// A copy of the file's URL.
    pub fn url(&self) -> (r: Url)
        ensures
            r@ == self.url@,
    {
        self.url.clone()
    }

    /// The file's name: the last component of its URL.
    pub fn name(&self) -> (r: Option<&String>)
        ensures
            match r {
                Some(n) => self.url@.comps.len() > 0 && n@ == self.url@.comps.last(),
                None => self.url@.comps.len() == 0,
            },
    {
        self.url.file_name()
    }

    /// The file's name with its extension removed.
    pub fn stem(&self) -> (r: Option<String>)
        ensures
            match r {
                Some(s) => self.url@.comps.len() > 0 && s@ == crate::url::stem_of(
                    self.url@.comps.last(),
                ),
                None => self.url@.comps.len() == 0,
            },
    {
        self.url.file_stem()
    }

    /// The URL of the directory holding the file.
    pub fn parent(&self) -> (r: Option<Url>)
        ensures
            match r {
                Some(p) => {
                    &&& self.url@.comps.len() > 0
                    &&& p@.scheme == self.url@.scheme
                    &&& p@.comps == self.url@.comps.drop_last()
                },
                None => self.url@.comps.len() == 0,
            },
    {
        self.url.parent_url()
    }

    /// Whether the file is a directory.
    pub fn is_dir(&self) -> (r: bool)
        ensures
            r == self.cha.kind.dir,
    {
        self.cha.kind.dir
    }
}

/// The stat behind an optional reference to one.
pub open spec fn followed_val(followed: Option<&MetaSnapshot>) -> Option<MetaSnapshot> {
    match followed {
        Some(m) => Some(*m),
        None => None,
    }
}

} // verus!
