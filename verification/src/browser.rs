//! The file browser beside the video: trees of local and remote entries, and
//! the progress of a transfer.

use std::cmp::Ordering;
use crate::icons::{FILE, FILE_IMAGE, FILE_TEXT, FOLDER_CLOSED, FOLDER_OPEN};
use crate::listing::{lowercase, to_lowercase};
use crate::text::{
    cut_last, lemma_lex_asymmetric, lemma_lex_irreflexive, lemma_lex_total, lemma_lex_transitive,
    lex_less, rsplit_once, same, text_less,
};
use vstd::prelude::*;
use vstd::string::*;

verus! {

/// What an entry is.
#[derive(Clone, Copy, Debug, PartialEq, Eq, Structural)]
pub enum FileType {
    Directory,
    File,
    Image,
    Text,
    Unknown,
}

/// The extension of a name, without its dot; none where there is none.
pub open spec fn extension(name: Seq<char>) -> Seq<char> {
    match cut_last(name, '.') {
        Some((stem, ext)) => if stem.len() > 0 { ext } else { Seq::empty() },
        None => Seq::empty(),
    }
}

/// A file with such an extension, in lower case, holds a picture.
pub open spec fn is_image(ext: Seq<char>) -> bool {
    ext == "png"@ || ext == "jpg"@ || ext == "jpeg"@ || ext == "gif"@ || ext == "bmp"@ || ext
        == "webp"@ || ext == "ico"@
}

/// A file with such an extension, in lower case, holds text.
pub open spec fn is_text(ext: Seq<char>) -> bool {
    ext == "txt"@ || ext == "md"@ || ext == "rs"@ || ext == "toml"@ || ext == "json"@ || ext
        == "yaml"@ || ext == "yml"@ || ext == "log"@ || ext == "cfg"@ || ext == "ini"@
}

/// What an entry of that name is.
pub open spec fn type_of(name: Seq<char>, is_dir: bool) -> FileType {
    let ext = lowercase(extension(name));
    if is_dir {
        FileType::Directory
    } else if is_image(ext) {
        FileType::Image
    } else if is_text(ext) {
        FileType::Text
    } else {
        FileType::File
    }
}

/// What an entry of that name is.
pub fn classify(name: &str, is_dir: bool) -> (t: FileType)
    ensures
        t == type_of(name@, is_dir),
{
    if is_dir {
        return FileType::Directory;
    }
    let ext = match rsplit_once(name, '.') {
        Some((stem, ext)) => if stem.as_str().is_empty() { String::new() } else { ext },
        None => String::new(),
    };
    assert(ext@ =~= extension(name@));
    let e = to_lowercase(&ext);
    if same(&e, "png") || same(&e, "jpg") || same(&e, "jpeg") || same(&e, "gif") || same(&e, "bmp")
        || same(&e, "webp") || same(&e, "ico") {
        FileType::Image
    } else if same(&e, "txt") || same(&e, "md") || same(&e, "rs") || same(&e, "toml") || same(
        &e,
        "json",
    ) || same(&e, "yaml") || same(&e, "yml") || same(&e, "log") || same(&e, "cfg") || same(
        &e,
        "ini",
    ) {
        FileType::Text
    } else {
        FileType::File
    }
}

/// The icon of an entry.
pub open spec fn icon_of(t: FileType, is_expanded: bool) -> Seq<char> {
    match t {
        FileType::Directory => if is_expanded { FOLDER_OPEN@ } else { FOLDER_CLOSED@ },
        FileType::Image => FILE_IMAGE@,
        FileType::Text => FILE_TEXT@,
        _ => FILE@,
    }
}

/// The icon of an entry.
pub fn pick_icon(t: FileType, is_expanded: bool) -> (s: &'static str)
    ensures
        s@ == icon_of(t, is_expanded),
{
    match t {
        FileType::Directory => if is_expanded { FOLDER_OPEN } else { FOLDER_CLOSED },
        FileType::Image => FILE_IMAGE,
        FileType::Text => FILE_TEXT,
        _ => FILE,
    }
}

/// The place of an entry among others: directories first, then by name.
pub fn child_order(a_is_dir: bool, a_name: &str, b_is_dir: bool, b_name: &str) -> (r: Ordering)
    ensures
        (r is Less) == (if a_is_dir != b_is_dir { a_is_dir } else { lex_less(a_name@, b_name@) }),
        (r is Greater) == (if a_is_dir != b_is_dir {
            b_is_dir
        } else {
            lex_less(b_name@, a_name@)
        }),
        (r is Equal) == (a_is_dir == b_is_dir && a_name@ == b_name@),
{
    proof {
        lemma_lex_total(a_name@, b_name@);
        lemma_lex_asymmetric(a_name@, b_name@);
        lemma_lex_irreflexive(a_name@);
    }
    if a_is_dir && !b_is_dir {
        Ordering::Less
    } else if !a_is_dir && b_is_dir {
        Ordering::Greater
    } else if text_less(a_name, b_name) {
        Ordering::Less
    } else if text_less(b_name, a_name) {
        Ordering::Greater
    } else {
        Ordering::Equal
    }
}

/// An entry is shown before another: directories first, then by name.
pub open spec fn tree_before(a: FileEntry, b: FileEntry) -> bool {
    if (a.file_type == FileType::Directory) != (b.file_type == FileType::Directory) {
        a.file_type == FileType::Directory
    } else {
        lex_less(a.name@, b.name@)
    }
}

/// Of two entries of a list, the first is shown before the second; where
/// neither goes first, as they are listed.
pub open spec fn shown_first(c: Seq<FileEntry>, i: int, j: int) -> bool {
    tree_before(c[i], c[j]) || (!tree_before(c[j], c[i]) && i < j)
}

/// The positions below `n`, each once, in the order in which the entries at
/// them are shown.
pub open spec fn is_display_order(c: Seq<FileEntry>, order: Seq<usize>, n: int) -> bool {
    &&& order.len() == n
    &&& forall|k: int| 0 <= k < n ==> 0 <= #[trigger] order[k] < n
    &&& forall|k: int, m: int|
        0 <= k < m < n ==> shown_first(c, #[trigger] order[k] as int, #[trigger] order[m] as int)
}

/// One entry goes before another, which no third one goes before.
proof fn lemma_tree_before(a: FileEntry, b: FileEntry, c: FileEntry)
    requires
        tree_before(a, b),
        !tree_before(c, b),
    ensures
        tree_before(a, c),
{
    if (a.file_type == FileType::Directory) == (b.file_type == FileType::Directory) && (b.file_type
        == FileType::Directory) == (c.file_type == FileType::Directory) {
        lemma_lex_total(b.name@, c.name@);
        if lex_less(b.name@, c.name@) {
            lemma_lex_transitive(a.name@, b.name@, c.name@);
        }
    }
}

proof fn lemma_tree_asymmetric(a: FileEntry, b: FileEntry)
    ensures
        !(tree_before(a, b) && tree_before(b, a)),
{
    lemma_lex_asymmetric(a.name@, b.name@);
}

/// Whether an entry is shown before another.
fn entry_before(a: &FileEntry, b: &FileEntry) -> (r: bool)
    ensures
        r == tree_before(*a, *b),
{
    let a_dir = match a.file_type {
        FileType::Directory => true,
        _ => false,
    };
    let b_dir = match b.file_type {
        FileType::Directory => true,
        _ => false,
    };
    if a_dir != b_dir {
        a_dir
    } else {
        text_less(&a.name, &b.name)
    }
}

/// A local entry and what is below it.
pub struct FileEntry {
    pub path: String,
    pub name: String,
    pub file_type: FileType,
    pub size: u64,
    pub is_expanded: bool,
    pub children: Vec<FileEntry>,
    pub is_loading: bool,
}

impl FileEntry {
    /// An entry with nothing below it yet. Directories have no size.
    pub fn new(path: String, name: String, is_dir: bool, size: u64) -> (e: Self)
        ensures
            e.path == path,
            e.name == name,
            e.file_type == type_of(name@, is_dir),
            e.size == (if is_dir { 0 } else { size }),
            !e.is_expanded,
            e.children@.len() == 0,
            !e.is_loading,
    {
        let file_type = classify(&name, is_dir);
        FileEntry {
            path,
            name,
            file_type,
            size: if is_dir { 0 } else { size },
            is_expanded: false,
            children: Vec::new(),
            is_loading: false,
        }
    }

    pub fn icon(&self) -> (s: &'static str)
        ensures
            s@ == icon_of(self.file_type, self.is_expanded),
    {
        pick_icon(self.file_type, self.is_expanded)
    }

    /// Opens or closes a directory. Gives whether its entries are to be loaded.
    pub fn toggle(&mut self) -> (load: bool)
        ensures
            final(self).is_expanded == (if old(self).file_type == FileType::Directory {
                !old(self).is_expanded
            } else {
                old(self).is_expanded
            }),
            load == (old(self).file_type == FileType::Directory && !old(self).is_expanded
                && old(self).children@.len() == 0 && !old(self).is_loading),
            final(self).path == old(self).path,
            final(self).name == old(self).name,
            final(self).file_type == old(self).file_type,
            final(self).size == old(self).size,
            final(self).children == old(self).children,
            final(self).is_loading == old(self).is_loading,
    {
        match self.file_type {
            FileType::Directory => {
                self.is_expanded = !self.is_expanded;
                self.is_expanded && self.children.len() == 0 && !self.is_loading
            },
            _ => false,
        }
    }

    /// The positions of the entries below this one, in the order in which they
    /// are shown.
    pub fn display_order(&self) -> (order: Vec<usize>)
        ensures
            is_display_order(self.children@, order@, self.children@.len() as int),
    {
        let mut order: Vec<usize> = Vec::new();
        let n: usize = self.children.len();
        let mut next: usize = 0;
        while next < n
            invariant
                n == self.children@.len(),
                next <= n,
                is_display_order(self.children@, order@, next as int),
            decreases n - next,
        {
            let ghost c = self.children@;
            let ghost before = order@;
            let mut at: usize = order.len();
            while at > 0 && entry_before(&self.children[next], &self.children[order[at - 1]])
                invariant
                    n == self.children@.len(),
                    next < n,
                    at <= next,
                    order@ == before,
                    c == self.children@,
                    is_display_order(c, before, next as int),
                    forall|k: int|
                        at <= k < next ==> tree_before(
                            c[next as int],
                            c[(#[trigger] before[k]) as int],
                        ),
                decreases at,
            {
                at -= 1;
            }
            order.insert(at, next);
            proof {
                let after = before.insert(at as int, next);
                assert(order@ == after);
                assert forall|k: int, m: int| 0 <= k < m < next + 1 implies shown_first(
                    c,
                    #[trigger] after[k] as int,
                    #[trigger] after[m] as int,
                ) by {
                    let k0 = if k < at { k } else { k - 1 };
                    let m0 = if m < at { m } else { m - 1 };
                    if k != at && m != at {
                        assert(after[k] == before[k0] && after[m] == before[m0]);
                    } else if k == at {
                        assert(after[m] == before[m0]);
                    } else {
                        assert(after[k] == before[k]);
                        let last = before[at - 1] as int;
                        assert(!tree_before(c[next as int], c[last]));
                        if tree_before(c[next as int], c[before[k] as int]) {
                            if k < at - 1 {
                                assert(shown_first(c, before[k] as int, last));
                                lemma_tree_asymmetric(c[before[k] as int], c[last]);
                                lemma_tree_before(c[next as int], c[before[k] as int], c[last]);
                            }
                        }
                    }
                }
                assert forall|k: int| 0 <= k < next + 1 implies 0 <= #[trigger] after[k] < next
                    + 1 by {
                    if k < at {
                        assert(after[k] == before[k]);
                    } else if k > at {
                        assert(after[k] == before[k - 1]);
                    }
                }
            }
            next += 1;
        }
        order
    }

    /// Takes the entries below a directory; any other entry has none.
    pub fn load_children(&mut self, children: Vec<FileEntry>)
        ensures
            final(self).children == (if old(self).file_type == FileType::Directory {
                children
            } else {
                old(self).children
            }),
            final(self).is_loading == (old(self).is_loading && old(self).file_type
                != FileType::Directory),
            final(self).path == old(self).path,
            final(self).name == old(self).name,
            final(self).file_type == old(self).file_type,
            final(self).size == old(self).size,
            final(self).is_expanded == old(self).is_expanded,
    {
        match self.file_type {
            FileType::Directory => {
                self.children = children;
                self.is_loading = false;
            },
            _ => {},
        }
    }
}

/// A remote entry and what is below it.
pub struct RemoteFileEntry {
    pub name: String,
    pub path: String,
    pub is_dir: bool,
    pub size: u64,
    pub is_expanded: bool,
    pub children: Vec<RemoteFileEntry>,
    pub is_loading: bool,
}

impl RemoteFileEntry {
    pub fn new(name: String, path: String, is_dir: bool, size: u64) -> (e: Self)
        ensures
            e.name == name,
            e.path == path,
            e.is_dir == is_dir,
            e.size == size,
            !e.is_expanded,
            e.children@.len() == 0,
            !e.is_loading,
    {
        RemoteFileEntry {
            name,
            path,
            is_dir,
            size,
            is_expanded: false,
            children: Vec::new(),
            is_loading: false,
        }
    }

    /// What the entry is: of remote files no more is told.
    pub fn file_type(&self) -> (t: FileType)
        ensures
            t == (if self.is_dir { FileType::Directory } else { FileType::File }),
    {
        if self.is_dir { FileType::Directory } else { FileType::File }
    }

    pub fn icon(&self) -> (s: &'static str)
        ensures
            s@ == icon_of(
                if self.is_dir { FileType::Directory } else { FileType::File },
                self.is_expanded,
            ),
    {
        pick_icon(self.file_type(), self.is_expanded)
    }

    /// Opens or closes a directory.
    pub fn toggle(&mut self)
        ensures
            final(self).is_expanded == (old(self).is_dir != old(self).is_expanded),
            final(self).name == old(self).name,
            final(self).path == old(self).path,
            final(self).is_dir == old(self).is_dir,
            final(self).size == old(self).size,
            final(self).children == old(self).children,
            final(self).is_loading == old(self).is_loading,
    {
        if self.is_dir {
            self.is_expanded = !self.is_expanded;
        }
    }
}

/// How far a transfer has come. The moment is in nanoseconds of a clock that
/// never goes back.
pub struct TransferProgress {
    pub filename: String,
    pub bytes_transferred: u64,
    pub total_bytes: u64,
    pub is_upload: bool,
    pub start_time: u64,
}

/// The browser.
pub struct FileBrowser {
    pub local_root: FileEntry,
    pub remote_root: Option<RemoteFileEntry>,
    pub selected_local: Option<String>,
    pub selected_remote: Option<String>,
    pub local_path_history: Vec<String>,
    pub remote_path_history: Vec<String>,
    pub transfer_progress: Option<TransferProgress>,
    pub show_transfer_dialog: bool,
    pub drag_drop_active: bool,
}

impl FileBrowser {
    /// A browser of a local directory, with no remote one yet.
    pub fn new(local_root: FileEntry) -> (b: Self)
        ensures
            b.local_root == local_root,
            b.remote_root is None,
            b.selected_local is None,
            b.selected_remote is None,
            b.local_path_history@.len() == 0,
            b.remote_path_history@.len() == 0,
            b.transfer_progress is None,
            !b.show_transfer_dialog,
            !b.drag_drop_active,
    {
        FileBrowser {
            local_root,
            remote_root: None,
            selected_local: None,
            selected_remote: None,
            local_path_history: Vec::new(),
            remote_path_history: Vec::new(),
            transfer_progress: None,
            show_transfer_dialog: false,
            drag_drop_active: false,
        }
    }

    pub fn set_remote_root(&mut self, root: RemoteFileEntry)
        ensures
            *final(self) == (FileBrowser { remote_root: Some(root), ..*old(self) }),
    {
        self.remote_root = Some(root);
    }

    /// Notes how far a transfer has come. The first note names it and says when
    /// it began; one that is complete is no longer shown.
    pub fn update_transfer_progress(
        &mut self,
        filename: String,
        bytes: u64,
        total: u64,
        is_upload: bool,
        now: u64,
    )
        ensures
            *final(self) == (FileBrowser {
                transfer_progress: if bytes >= total {
                    None
                } else {
                    match old(self).transfer_progress {
                        None => Some(
                            TransferProgress {
                                filename,
                                bytes_transferred: bytes,
                                total_bytes: total,
                                is_upload,
                                start_time: now,
                            },
                        ),
                        Some(p) => Some(
                            TransferProgress {
                                bytes_transferred: bytes,
                                total_bytes: total,
                                ..p
                            },
                        ),
                    }
                },
                ..*old(self)
            }),
    {
        let mut progress: Option<TransferProgress> = None;
        std::mem::swap(&mut progress, &mut self.transfer_progress);
        if bytes < total {
            self.transfer_progress = match progress {
                None => Some(
                    TransferProgress {
                        filename,
                        bytes_transferred: bytes,
                        total_bytes: total,
                        is_upload,
                        start_time: now,
                    },
                ),
                Some(p) => Some(
                    TransferProgress { bytes_transferred: bytes, total_bytes: total, ..p },
                ),
            };
        }
    }
}

} // verus!
