//! Document state — raw Markdown content, on-disk path, and the decisions
//! around saving and auto-save. The file system itself is touched by the
//! application; this module says what to write where and how the state moves.
use vstd::prelude::*;
use crate::text::{ends_with, push_str, string_of};

verus! {

/// The file name of `path` (its last component), as `Path::file_name` reports
/// it; `None` when the path ends in `..` or has no final component.
pub uninterp spec fn path_file_name(path: Seq<char>) -> Option<Seq<char>>;

/// Calls `Path::file_name` on `path` and converts the result to a string.
/// The contract names the result; it does not restate how paths split.
#[verifier::external_body]
fn file_name_of(path: &str) -> (r: Option<String>)
    ensures
        match r {
            Some(n) => path_file_name(path@) == Some(n@),
            None => path_file_name(path@) is None,
        },
{
    std::path::Path::new(path).file_name().map(|n| n.to_string_lossy().into_owned())
}

/// A single plain path component: not empty, not `.` or `..`, and free of
/// separators and drive markers (`/`, `\`, `:`).
pub open spec fn plain_component(part: Seq<char>) -> bool {
    part.len() > 0 && part != "."@ && part != ".."@ && forall|i: int|
        0 <= i < part.len() ==> part[i] != '/' && part[i] != '\\' && part[i] != ':'
}

/// `base` extended with the plain component `part` on Unix: a `/` goes between
/// them unless `base` is empty or already ends with one.
pub open spec fn join_plain(base: Seq<char>, part: Seq<char>) -> Seq<char> {
    if base.len() == 0 || base.last() == '/' {
        base + part
    } else {
        base + seq!['/'] + part
    }
}

/// Calls `Path::join` on `base` and a plain component `part`, and converts the
/// result to a string (lossless: both inputs are UTF-8). The contract states
/// what `PathBuf::push` documents and does on Unix for a relative path: `part`
/// is appended, after a `/` when `base` is not empty and does not end in one.
#[verifier::external_body]
fn join_path(base: &str, part: &str) -> (r: String)
    requires
        plain_component(part@),
    ensures
        r@ == join_plain(base@, part@),
{
    std::path::Path::new(base).join(part).to_string_lossy().into_owned()
}

/// Why a save could not be carried out.
#[derive(Debug, Clone, Copy, PartialEq, Eq, Structural)]
pub enum DocumentError {
    /// The document has never been saved, so there is no path to save to.
    NoPath,
}

impl DocumentError {
    /// The message shown for this error.
    pub fn message(&self) -> (s: &'static str)
        ensures
            s@ == "no path set — use save_to"@,
    {
        "no path set — use save_to"
    }
}

/// The in-memory representation of an open binder document.
#[derive(Debug, Clone)]
pub struct Document {
    /// The current Markdown source text.
    pub content: String,
    /// The on-disk path, if the document has ever been saved.
    pub path: Option<String>,
    /// True when the in-memory content differs from what is on disk.
    pub is_modified: bool,
}

/// The title shown for a document whose path is `path`: the bare file name, or
/// `Untitled` when there is none.
pub open spec fn title_of(path: Option<String>) -> Seq<char> {
    match path {
        Some(p) => match path_file_name(p@) {
            Some(n) => n,
            None => "Untitled"@,
        },
        None => "Untitled"@,
    }
}

/// The window title: the document title followed by ` — Swatchbook`, with a
/// `• ` prefix while the document has unsaved changes.
pub open spec fn window_title_of(path: Option<String>, modified: bool) -> Seq<char> {
    (if modified {
        "• "@
    } else {
        Seq::<char>::empty()
    }) + title_of(path) + " — Swatchbook"@
}

/// Where a save writes: the document's path, or `NoPath` when it has none.
pub open spec fn save_target(path: Option<String>) -> Result<Seq<char>, DocumentError> {
    match path {
        Some(p) => Ok(p@),
        None => Err(DocumentError::NoPath),
    }
}

/// The directory holding auto-save data: `$XDG_DATA_HOME/swatchbook`, or
/// `$HOME/.local/share/swatchbook` when `XDG_DATA_HOME` is unset, with `/tmp`
/// standing in for an unset `HOME`.
pub open spec fn data_dir(xdg_data_home: Option<Seq<char>>, home: Option<Seq<char>>) -> Seq<char> {
    let base = match xdg_data_home {
        Some(d) => d,
        None => join_plain(
            join_plain(
                match home {
                    Some(h) => h,
                    None => "/tmp"@,
                },
                ".local"@,
            ),
            "share"@,
        ),
    };
    join_plain(base, "swatchbook"@)
}

/// The view of an optional string slice.
pub open spec fn opt_view(s: Option<&str>) -> Option<Seq<char>> {
    match s {
        Some(t) => Some(t@),
        None => None,
    }
}

impl Default for Document {
    fn default() -> (d: Self)
        ensures
            d.content@.len() == 0,
            d.path is None,
            !d.is_modified,
    {
        Self::new()
    }
}

impl Document {
    /// Create a new, empty, unsaved document.
    pub fn new() -> (d: Self)
        ensures
            d.content@.len() == 0,
            d.path is None,
            !d.is_modified,
    {
        Self { content: String::new(), path: None, is_modified: false }
    }

    /// The document read from `path`, whose text is `content`: saved, so not
    /// modified.
    pub fn from_file(path: String, content: String) -> (d: Self)
        ensures
            d.content == content,
            d.path == Some(path),
            !d.is_modified,
    {
        Self { content, path: Some(path), is_modified: false }
    }

    /// The document restored from an auto-save whose text is `content`: it has
    /// no path and counts as modified, so closing it asks to save.
    pub fn recover(content: String) -> (d: Self)
        ensures
            d.content == content,
            d.path is None,
            d.is_modified,
    {
        Self { content, path: None, is_modified: true }
    }

    /// A previous run ended without a clean exit and left an auto-save behind:
    /// true exactly when both the sentinel and the auto-save file exist.
    pub fn has_crash_recovery(sentinel_exists: bool, autosave_exists: bool) -> (b: bool)
        ensures
            b == (sentinel_exists && autosave_exists),
    {
        sentinel_exists && autosave_exists
    }

    /// The path a save writes to: the current path, or `NoPath` when the
    /// document has none yet (it needs a save-as).
    pub fn save(&self) -> (r: Result<String, DocumentError>)
        ensures
            match r {
                Ok(p) => save_target(self.path) == Ok::<Seq<char>, DocumentError>(p@),
                Err(e) => save_target(self.path) == Err::<Seq<char>, DocumentError>(e),
            },
    {
        match &self.path {
            Some(p) => Ok(p.clone()),
            None => Err(DocumentError::NoPath),
        }
    }

    /// Records that the content has been written to `path`: it becomes the
    /// document's path and the document is no longer modified.
    pub fn record_save(&mut self, path: String)
        ensures
            final(self).path == Some(path),
            !final(self).is_modified,
            final(self).content == old(self).content,
    {
        self.path = Some(path);
        self.is_modified = false;
    }

    /// The bare filename, or `"Untitled"` for unsaved documents.
    pub fn title(&self) -> (s: String)
        ensures
            s@ == title_of(self.path),
    {
        match &self.path {
            Some(p) => match file_name_of(p.as_str()) {
                Some(n) => n,
                None => String::from_str("Untitled"),
            },
            None => String::from_str("Untitled"),
        }
    }

    /// The full window title, including a `•` prefix when modified.
    pub fn window_title(&self) -> (s: String)
        ensures
            s@ == window_title_of(self.path, self.is_modified),
    {
        let name = self.title();
        let mut s = String::new();
        if self.is_modified {
            push_str(&mut s, "• ");
        }
        push_str(&mut s, name.as_str());
        push_str(&mut s, " — Swatchbook");
        assert(s@ =~= window_title_of(self.path, self.is_modified));
        s
    }

    /// The palette name used when exporting: the title without a trailing
    /// `.md` (every trailing copy is removed).
    pub fn palette_name(&self) -> (s: String)
        ensures
            s@ == crate::token::trim_end_matches(title_of(self.path), ".md"@),
    {
        let title = self.title();
        let v = crate::text::chars_of(title.as_str());
        let md = crate::text::chars_of(".md");
        proof {
            reveal_strlit(".md");
        }
        let kept = crate::token::trim_end_matching(&v, &md);
        string_of(&kept)
    }

    /// `$XDG_DATA_HOME/swatchbook/autosave.md`, given the values of the
    /// `XDG_DATA_HOME` and `HOME` environment variables.
    pub fn autosave_path(xdg_data_home: Option<&str>, home: Option<&str>) -> (p: String)
        ensures
            p@ == join_plain(data_dir(opt_view(xdg_data_home), opt_view(home)), "autosave.md"@),
            ends_with(p@, "swatchbook/autosave.md"@),
    {
        let dir = data_dir_exec(xdg_data_home, home);
        proof {
            lemma_plain_component("autosave.md");
            reveal_strlit("swatchbook/autosave.md");
            reveal_strlit("swatchbook/");
            reveal_strlit("autosave.md");
            assert("swatchbook/autosave.md"@ =~= "swatchbook/"@ + "autosave.md"@);
            lemma_in_data_dir(dir@, "autosave.md"@, "swatchbook/autosave.md"@);
        }
        join_path(dir.as_str(), "autosave.md")
    }

    /// The sentinel file written on startup and removed on clean exit.
    pub fn sentinel_path(xdg_data_home: Option<&str>, home: Option<&str>) -> (p: String)
        ensures
            p@ == join_plain(data_dir(opt_view(xdg_data_home), opt_view(home)), ".running"@),
            ends_with(p@, "swatchbook/.running"@),
    {
        let dir = data_dir_exec(xdg_data_home, home);
        proof {
            lemma_plain_component(".running");
            reveal_strlit("swatchbook/.running");
            reveal_strlit("swatchbook/");
            reveal_strlit(".running");
            assert("swatchbook/.running"@ =~= "swatchbook/"@ + ".running"@);
            lemma_in_data_dir(dir@, ".running"@, "swatchbook/.running"@);
        }
        join_path(dir.as_str(), ".running")
    }
}

/// A file joined to a directory that ends in `swatchbook` sits in it.
proof fn lemma_in_data_dir(dir: Seq<char>, file: Seq<char>, tail: Seq<char>)
    requires
        ends_with(dir, "swatchbook"@),
        tail == "swatchbook/"@ + file,
    ensures
        ends_with(join_plain(dir, file), tail),
{
    reveal_strlit("swatchbook");
    reveal_strlit("swatchbook/");
    let sb = "swatchbook"@;
    assert(dir.len() >= 10);
    assert(dir.last() == dir.skip(dir.len() - 10)[9]);
    assert(dir.last() == 'k');
    let p = join_plain(dir, file);
    assert(p == dir + seq!['/'] + file);
    assert(p.skip(p.len() - tail.len()) =~= tail) by {
        assert forall|i: int| 0 <= i < tail.len() implies p.skip(p.len() - tail.len())[i]
            == tail[i] by {
            if i < 10 {
                assert(dir.skip(dir.len() - 10)[i] == sb[i]);
            }
        }
    }
}

proof fn lemma_plain_component(part: &str)
    requires
        part@ == "autosave.md"@ || part@ == ".running"@ || part@ == "swatchbook"@ || part@
            == ".local"@ || part@ == "share"@,
    ensures
        plain_component(part@),
{
    reveal_strlit("autosave.md");
    reveal_strlit(".running");
    reveal_strlit("swatchbook");
    reveal_strlit(".local");
    reveal_strlit("share");
    reveal_strlit(".");
    reveal_strlit("..");
    assert(part@.len() > 2);
    assert(part@ != "."@);
    assert(part@ != ".."@);
}

fn data_dir_exec(xdg_data_home: Option<&str>, home: Option<&str>) -> (d: String)
    ensures
        d@ == data_dir(opt_view(xdg_data_home), opt_view(home)),
        ends_with(d@, "swatchbook"@),
{
    proof {
        lemma_plain_component(".local");
        lemma_plain_component("share");
        lemma_plain_component("swatchbook");
    }
    let base = match xdg_data_home {
        Some(d) => String::from_str(d),
        None => {
            let h = match home {
                Some(h) => h,
                None => "/tmp",
            };
            let local = join_path(h, ".local");
            join_path(local.as_str(), "share")
        },
    };
    let d = join_path(base.as_str(), "swatchbook");
    proof {
        lemma_join_ends(base@, "swatchbook"@);
    }
    d
}

/// A joined component ends the path.
proof fn lemma_join_ends(base: Seq<char>, part: Seq<char>)
    ensures
        ends_with(join_plain(base, part), part),
{
    let p = join_plain(base, part);
    assert(p.skip(p.len() - part.len()) =~= part);
}

/// The window title starts with the `• ` marker exactly when the document has
/// unsaved changes (for titles that do not themselves start with `•`), and it
/// always ends with ` — Swatchbook`.
pub proof fn lemma_window_title_marks_unsaved(path: Option<String>, modified: bool)
    requires
        !(title_of(path).len() > 0 && title_of(path)[0] == '•'),
    ensures
        crate::text::starts_with(window_title_of(path, modified), "• "@) == modified,
        crate::text::ends_with(window_title_of(path, modified), " — Swatchbook"@),
{
    let w = window_title_of(path, modified);
    let t = title_of(path);
    reveal_strlit("• ");
    reveal_strlit(" — Swatchbook");
    if modified {
        assert(w.take(2) =~= "• "@);
    } else {
        assert(w =~= t + " — Swatchbook"@);
        assert(w[0] != '•');
        assert("• "@[0] == '•');
        if w.len() >= 2 {
            assert(w.take(2)[0] != "• "@[0]);
        }
    }
    let tail = " — Swatchbook"@;
    assert(w.skip(w.len() - tail.len()) =~= tail);
}

/// After `record_save(p)`, saving writes to `p` again.
pub proof fn lemma_saved_document_saves_in_place(p: String)
    ensures
        save_target(Some(p)) == Ok::<Seq<char>, DocumentError>(p@),
{
}

} // verus!
