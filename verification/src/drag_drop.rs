//! Drag-and-drop button generation: classifying dropped files, finding
//! free grid positions, and building action buttons bound to the dropped
//! targets.
//!
//! The file system is probed by the surrounding application, which hands
//! in each path together with what it observed; everything from there on
//! is decided here. Dropped paths are kept absolute, and relative ones
//! are resolved against the current directory the caller supplies, so
//! that a generated button never launches the wrong file.

use vstd::prelude::*;
use crate::config::ActionButton;
use crate::config::ActionType;
use crate::config::ButtonStyle;
use crate::config::ConfigValue;
use crate::config::Position;
use crate::icon::IconService;
use crate::icon::IconType;
use crate::paths::normalize_target;
use crate::text::contains_seq;
use crate::text::chars_contain_seq;
use crate::text::lower_seq;
use crate::text::to_lower;
use crate::text::rfind_char;
use crate::text::rfind_char_vec;
use crate::text::str_chars;
use crate::text::chars_to_string;
use crate::text::str_eq;

verus! {

/// A dropped file as analyzed: its path, display name, classification,
/// and a hint for its button icon.
#[derive(Debug, Clone)]
pub struct DroppedFile {
    pub path: String,
    pub name: String,
    pub file_type: DroppedFileType,
    pub size_bytes: u64,
    pub is_directory: bool,
    pub icon_hint: Option<String>,
}

#[derive(Debug, Clone, Copy, PartialEq, Eq, Structural)]
pub enum DroppedFileType {
    Executable,
    Document,
    Image,
    Video,
    Audio,
    Archive,
    Script,
    Directory,
    Unknown,
}

/// What the file system reported about a dropped path.
#[derive(Debug, Clone, Copy, PartialEq, Eq, Structural)]
pub struct FileMeta {
    pub exists: bool,
    pub is_directory: bool,
    pub size_bytes: u64,
}

/// A request to generate buttons for dropped files on a grid.
#[derive(Debug)]
pub struct ButtonGenerationRequest {
    pub files: Vec<DroppedFile>,
    pub target_position: Option<Position>,
    pub grid_rows: u32,
    pub grid_cols: u32,
    pub existing_buttons: Vec<ActionButton>,
}

/// The generated buttons, where they were placed, and what went wrong.
#[derive(Debug)]
pub struct ButtonGenerationResult {
    pub generated_buttons: Vec<ActionButton>,
    pub placement_positions: Vec<Position>,
    pub conflicts: Vec<Position>,
    pub errors: Vec<String>,
}

/// One undoable grid change.
#[derive(Debug)]
pub struct UndoOperation {
    pub operation_id: String,
    pub timestamp_ms: u64,
    pub operation_type: UndoOperationType,
    pub affected_positions: Vec<Position>,
    pub previous_buttons: Vec<Option<ActionButton>>,
    pub new_buttons: Vec<ActionButton>,
}

#[derive(Debug, Clone, Copy, PartialEq, Eq, Structural)]
pub enum UndoOperationType {
    AddButtons,
    RemoveButtons,
    ModifyButtons,
}

/// Why a dropped file could not be analyzed.
#[derive(Debug, Clone, Copy, PartialEq, Eq, Structural)]
pub enum DragDropError {
    FileDoesNotExist,
}

/// The position of the last path separator in `s`.
pub open spec fn last_sep(s: Seq<char>) -> Option<int> {
    match (rfind_char(s, '/'), rfind_char(s, '\\')) {
        (Some(a), Some(b)) => if a >= b {
            Some(a)
        } else {
            Some(b)
        },
        (Some(a), None) => Some(a),
        (None, Some(b)) => Some(b),
        (None, None) => None,
    }
}

/// The characters after the last separator: the file's display name.
pub open spec fn file_name_of(s: Seq<char>) -> Seq<char> {
    match last_sep(s) {
        Some(i) => s.subrange(i + 1, s.len() as int),
        None => s,
    }
}

/// The characters before the last separator: the containing directory.
pub open spec fn parent_of(s: Seq<char>) -> Option<Seq<char>> {
    match last_sep(s) {
        Some(i) => Some(s.subrange(0, i)),
        None => None,
    }
}

/// The characters after the last dot: the extension used to classify.
pub open spec fn extension_of(s: Seq<char>) -> Seq<char> {
    crate::icon::file_extension(s)
}

pub open spec fn is_executable_ext(e: Seq<char>) -> bool {
    e == "exe"@ || e == "msi"@ || e == "bat"@ || e == "cmd"@ || e == "com"@ || e == "scr"@
}

pub open spec fn is_script_ext(e: Seq<char>) -> bool {
    e == "ps1"@ || e == "py"@ || e == "js"@ || e == "ts"@ || e == "sh"@ || e == "vbs"@ || e
        == "wsf"@
}

pub open spec fn is_document_ext(e: Seq<char>) -> bool {
    e == "txt"@ || e == "doc"@ || e == "docx"@ || e == "pdf"@ || e == "rtf"@ || e == "odt"@ || e
        == "md"@ || e == "html"@ || e == "htm"@
}

pub open spec fn is_image_ext(e: Seq<char>) -> bool {
    e == "png"@ || e == "jpg"@ || e == "jpeg"@ || e == "gif"@ || e == "bmp"@ || e == "ico"@ || e
        == "svg"@ || e == "webp"@ || e == "tiff"@
}

pub open spec fn is_video_ext(e: Seq<char>) -> bool {
    e == "mp4"@ || e == "avi"@ || e == "mkv"@ || e == "mov"@ || e == "wmv"@ || e == "flv"@ || e
        == "webm"@ || e == "m4v"@
}

pub open spec fn is_audio_ext(e: Seq<char>) -> bool {
    e == "mp3"@ || e == "wav"@ || e == "flac"@ || e == "aac"@ || e == "ogg"@ || e == "wma"@ || e
        == "m4a"@
}

pub open spec fn is_archive_ext(e: Seq<char>) -> bool {
    e == "zip"@ || e == "rar"@ || e == "7z"@ || e == "tar"@ || e == "gz"@ || e == "bz2"@ || e
        == "xz"@ || e == "cab"@
}

/// Whether a file without a telling extension still looks executable: it
/// sits in a typical program directory, or its size is in the range of a
/// binary.
pub open spec fn likely_executable(path: Seq<char>, size_bytes: u64) -> bool {
    (match parent_of(path) {
        Some(p) => {
            let lp = lower_seq(p);
            contains_seq(lp, "program files"@) || contains_seq(lp, "windows\\system32"@)
                || contains_seq(lp, "bin"@)
        },
        None => false,
    }) || (size_bytes > 1024 && size_bytes < 100000000)
}

/// The classification of a non-directory file by its lowered extension,
/// falling back to the executable heuristic.
pub open spec fn file_type_of(path: Seq<char>, size_bytes: u64) -> DroppedFileType {
    let e = lower_seq(extension_of(path));
    if is_executable_ext(e) {
        DroppedFileType::Executable
    } else if is_script_ext(e) {
        DroppedFileType::Script
    } else if is_document_ext(e) {
        DroppedFileType::Document
    } else if is_image_ext(e) {
        DroppedFileType::Image
    } else if is_video_ext(e) {
        DroppedFileType::Video
    } else if is_audio_ext(e) {
        DroppedFileType::Audio
    } else if is_archive_ext(e) {
        DroppedFileType::Archive
    } else if likely_executable(path, size_bytes) {
        DroppedFileType::Executable
    } else {
        DroppedFileType::Unknown
    }
}

/// The icon hint for a classified file: executables and images point at
/// themselves, everything else gets a pictogram.
pub open spec fn icon_hint_of(path: Seq<char>, t: DroppedFileType) -> Seq<char> {
    match t {
        DroppedFileType::Executable => path,
        DroppedFileType::Image => path,
        DroppedFileType::Directory => "\u{1F4C1}"@,
        DroppedFileType::Document => "\u{1F4C4}"@,
        DroppedFileType::Video => "\u{1F3AC}"@,
        DroppedFileType::Audio => "\u{1F3B5}"@,
        DroppedFileType::Archive => "\u{1F4E6}"@,
        DroppedFileType::Script => "\u{1F4DC}"@,
        DroppedFileType::Unknown => "\u{2753}"@,
    }
}

/// ASCII uppercasing of a single character.
pub open spec fn upper_char(c: char) -> char {
    if 'a' <= c && c <= 'z' {
        ((((c as u8) - 32) as u8) as char)
    } else {
        c
    }
}

fn upper_char_exec(c: char) -> (r: char)
    ensures
        r == upper_char(c),
{
    if 'a' <= c && c <= 'z' {
        ((c as u8) - 32) as char
    } else {
        c
    }
}

/// The file name without its extension; a leading dot alone does not
/// count as one.
pub open spec fn stem_of(s: Seq<char>) -> Seq<char> {
    match rfind_char(s, '.') {
        Some(d) => if d > 0 {
            s.subrange(0, d)
        } else {
            s
        },
        None => s,
    }
}

/// Underscores and hyphens turned into spaces.
pub open spec fn spaced(s: Seq<char>) -> Seq<char> {
    s.map(
        |i: int, c: char|
            if c == '_' || c == '-' {
                ' '
            } else {
                c
            },
    )
}

/// The words of `s` from position `i` on, capitalized and joined with
/// single spaces. `emitted` says whether a word was already written,
/// `in_word` whether the previous character belonged to one.
pub open spec fn title_from(s: Seq<char>, i: int, emitted: bool, in_word: bool) -> Seq<char>
    recommends
        0 <= i <= s.len(),
    decreases s.len() - i when 0 <= i <= s.len()
{
    if i >= s.len() {
        Seq::<char>::empty()
    } else {
        let c = s[i];
        if c == ' ' || c == '\t' || c == '\n' || c == '\r' {
            title_from(s, i + 1, emitted, false)
        } else if in_word {
            seq![c] + title_from(s, i + 1, true, true)
        } else if emitted {
            seq![' ', upper_char(c)] + title_from(s, i + 1, true, true)
        } else {
            seq![upper_char(c)] + title_from(s, i + 1, true, true)
        }
    }
}

/// The display label for a file name: stem, spaced, capitalized, and
/// shortened with an ellipsis when over twenty characters.
pub open spec fn label_of(name: Seq<char>) -> Seq<char> {
    let t = title_from(spaced(stem_of(name)), 0, false, false);
    if t.len() > 20 {
        t.subrange(0, 17) + "..."@
    } else {
        t
    }
}

/// The background color for each file classification.
pub open spec fn background_color_of(t: DroppedFileType) -> Seq<char> {
    match t {
        DroppedFileType::Executable => "#4CAF50"@,
        DroppedFileType::Directory => "#2196F3"@,
        DroppedFileType::Document => "#FF9800"@,
        DroppedFileType::Image => "#E91E63"@,
        DroppedFileType::Video => "#9C27B0"@,
        DroppedFileType::Audio => "#607D8B"@,
        DroppedFileType::Archive => "#795548"@,
        DroppedFileType::Script => "#009688"@,
        DroppedFileType::Unknown => "#757575"@,
    }
}

/// The open-action map built for a dropped target: the absolute target
/// and the default verb.
pub open spec fn open_cfg(m: Seq<(String, ConfigValue)>, path: Seq<char>, cwd: Seq<char>) -> bool {
    &&& m.len() == 2
    &&& m[0].0@ == "target"@
    &&& m[0].1 matches ConfigValue::Str(t) && t@ == normalize_target(path, cwd)
    &&& m[1].0@ == "verb"@
    &&& m[1].1 matches ConfigValue::Str(v) && v@ == "open"@
}

/// The launch-action map built for a dropped executable or script: the
/// program (a script's interpreter, with the absolute path as argument),
/// and the containing directory as working directory.
pub open spec fn launch_cfg(
    m: Seq<(String, ConfigValue)>,
    path: Seq<char>,
    cwd: Seq<char>,
    t: DroppedFileType,
) -> bool {
    let abs = normalize_target(path, cwd);
    let ext = lower_seq(extension_of(abs));
    let script = t == DroppedFileType::Script;
    &&& (crate::adapter::str_entry(m, "path"@) matches Some(p) && p@ == (if script && ext
        == "ps1"@ {
        "powershell.exe"@
    } else if script && ext == "py"@ {
        "python"@
    } else if script && ext == "js"@ {
        "node"@
    } else {
        abs
    }))
    &&& (match parent_of(abs) {
        Some(par) => crate::adapter::str_entry(m, "workdir"@) matches Some(w) && w@ == par,
        None => crate::adapter::str_entry(m, "workdir"@) is None,
    })
    &&& (if script && ext == "ps1"@ {
        crate::adapter::list_entry(m, "args"@) matches Some(l) && l.len() == 4 && (l[0] matches
            ConfigValue::Str(a0)
            && a0@ == "-ExecutionPolicy"@) && (l[1] matches ConfigValue::Str(a1) && a1@
            == "Bypass"@) && (l[2] matches ConfigValue::Str(a2) && a2@ == "-File"@) && (l[3] matches
            ConfigValue::Str(a3)
            && a3@ == abs)
    } else if script && (ext == "py"@ || ext == "js"@) {
        crate::adapter::list_entry(m, "args"@) matches Some(l) && l.len() == 1 && (l[0] matches
            ConfigValue::Str(a0)
            && a0@ == abs)
    } else {
        crate::adapter::list_entry(m, "args"@) is None
    })
}

/// What the button generated for a dropped file holds.
pub open spec fn button_built(b: ActionButton, file: DroppedFile, pos: Position, cwd: Seq<
    char,
>) -> bool {
    &&& b.position == pos
    &&& b.action_type == (match file.file_type {
        DroppedFileType::Executable => ActionType::LaunchApp,
        DroppedFileType::Script => ActionType::LaunchApp,
        _ => ActionType::Open,
    })
    &&& b.label@ == label_of(file.name@)
    &&& (file.icon_hint is None ==> b.icon is None)
    &&& (file.icon_hint is Some ==> b.icon is Some)
    &&& (match file.file_type {
        DroppedFileType::Executable => launch_cfg(b.config@, file.path@, cwd, file.file_type),
        DroppedFileType::Script => launch_cfg(b.config@, file.path@, cwd, file.file_type),
        _ => open_cfg(b.config@, file.path@, cwd),
    })
    &&& (b.style matches Some(st) && (st.background_color matches Some(bg) && bg@
        == background_color_of(file.file_type)) && (st.text_color matches Some(tc) && tc@
        == "#FFFFFF"@) && st.font_size is None && st.font_family is None)
    &&& b.action is None
}

/// Whether some existing button occupies the position `(row, col)`.
pub open spec fn occupied(existing: Seq<ActionButton>, row: u32, col: u32) -> bool {
    exists|b: int|
        0 <= b < existing.len() && (#[trigger] existing[b]).position.row == row
            && existing[b].position.col == col
}

/// Whether the grid cell at `(r0, c0)` is free of existing buttons.
pub open spec fn cell_free(existing: Seq<ActionButton>, r0: int, c0: int) -> bool {
    forall|b: int|
        0 <= b < existing.len() ==> !((#[trigger] existing[b]).position.row == r0
            && existing[b].position.col == c0)
}

/// How many cells of row `r0`, columns one through `c`, are free.
pub open spec fn free_in_row(existing: Seq<ActionButton>, r0: int, c: int) -> nat
    decreases c when c >= 0
{
    if c <= 0 {
        0
    } else {
        free_in_row(existing, r0, c - 1) + (if cell_free(existing, r0, c) {
            1nat
        } else {
            0nat
        })
    }
}

/// How many cells of rows one through `r`, columns one through `cols`,
/// are free.
pub open spec fn free_cells(existing: Seq<ActionButton>, r: int, cols: int) -> nat
    decreases r when r >= 0
{
    if r <= 0 {
        0
    } else {
        free_cells(existing, r - 1, cols) + free_in_row(existing, r, cols)
    }
}

/// Removing one element of a duplicate-free position list keeps it
/// duplicate-free and keeps every other element.
proof fn lemma_remove_keeps_positions(s: Seq<Position>, idx: int)
    requires
        0 <= idx < s.len(),
        forall|i: int, j: int| 0 <= i < j < s.len() ==> #[trigger] s[i] != #[trigger] s[j],
    ensures
        s.remove(idx).len() == s.len() - 1,
        forall|i: int, j: int|
            0 <= i < j < s.remove(idx).len() ==> #[trigger] s.remove(idx)[i]
                != #[trigger] s.remove(idx)[j],
        forall|x: Position| s.contains(x) && x != s[idx] ==> s.remove(idx).contains(x),
{
    let t = s.remove(idx);
    assert(forall|k: int| 0 <= k < idx ==> #[trigger] t[k] == s[k]);
    assert(forall|k: int| idx <= k < t.len() ==> #[trigger] t[k] == s[k + 1]);
    assert forall|x: Position| s.contains(x) && x != s[idx] implies t.contains(x) by {
        let j = choose|j: int| 0 <= j < s.len() && s[j] == x;
        if j < idx {
            assert(t[j] == x);
        } else {
            assert(t[j - 1] == x);
        }
    }
}

/// A duplicate-free list that contains every free cell of the region
/// made of rows one through `r - 1` (all columns) and row `r` up to
/// column `c` holds at least as many positions as that region has free
/// cells.
proof fn lemma_cover_count(
    s: Seq<Position>,
    existing: Seq<ActionButton>,
    r: int,
    c: int,
    cols: int,
)
    requires
        1 <= r <= u32::MAX,
        0 <= c <= cols <= u32::MAX,
        forall|i: int, j: int| 0 <= i < j < s.len() ==> #[trigger] s[i] != #[trigger] s[j],
        forall|r0: int, c0: int|
            (((1 <= r0 < r && 1 <= c0 <= cols) || (r0 == r && 1 <= c0 <= c)) && cell_free(
                existing,
                r0,
                c0,
            )) ==> #[trigger] s.contains(Position { row: r0 as u32, col: c0 as u32 }),
    ensures
        s.len() >= free_cells(existing, r - 1, cols) + free_in_row(existing, r, c),
    decreases r, c,
{
    if c == 0 {
        if r > 1 {
            lemma_cover_count(s, existing, r - 1, cols, cols);
        }
    } else {
        if cell_free(existing, r, c) {
            let p = Position { row: r as u32, col: c as u32 };
            assert(s.contains(p));
            let idx = choose|idx: int| 0 <= idx < s.len() && s[idx] == p;
            lemma_remove_keeps_positions(s, idx);
            let t = s.remove(idx);
            assert forall|r0: int, c0: int|
                (((1 <= r0 < r && 1 <= c0 <= cols) || (r0 == r && 1 <= c0 <= c - 1)) && cell_free(
                    existing,
                    r0,
                    c0,
                )) implies #[trigger] t.contains(Position { row: r0 as u32, col: c0 as u32 }) by {
                let q = Position { row: r0 as u32, col: c0 as u32 };
                assert(q.row == r0 && q.col == c0);
                assert(q != p);
                assert(s.contains(q));
            }
            lemma_cover_count(t, existing, r, c - 1, cols);
        } else {
            lemma_cover_count(s, existing, r, c - 1, cols);
        }
    }
}

/// What `analyze_single_file` reports for an existing path.
pub open spec fn analyzed_file(d: DroppedFile, path: Seq<char>, meta: FileMeta) -> bool {
    &&& d.path@ == path
    &&& d.name@ == (if file_name_of(path).len() > 0 {
        file_name_of(path)
    } else {
        "Unknown"@
    })
    &&& d.file_type == (if meta.is_directory {
        DroppedFileType::Directory
    } else {
        file_type_of(path, meta.size_bytes)
    })
    &&& d.size_bytes == meta.size_bytes
    &&& d.is_directory == meta.is_directory
    &&& d.icon_hint matches Some(h) && h@ == icon_hint_of(path, d.file_type)
}

/// Generates buttons from dropped files and remembers grid changes for
/// undo.
pub struct DragDropService {
    pub icon_service: IconService,
    pub undo_history: Vec<UndoOperation>,
    pub max_undo_history: usize,
}

/// Whether some existing button sits at `(row, col)`.
fn is_occupied(existing: &Vec<ActionButton>, row: u32, col: u32) -> (r: bool)
    ensures
        r == occupied(existing@, row, col),
{
    let mut i: usize = 0;
    while i < existing.len()
        invariant
            i <= existing@.len(),
            forall|b: int|
                0 <= b < i ==> !((#[trigger] existing@[b]).position.row == row
                    && existing@[b].position.col == col),
        decreases existing@.len() - i,
    {
        if existing[i].position.row == row && existing[i].position.col == col {
            return true;
        }
        i = i + 1;
    }
    false
}

/// Whether the position `(row, col)` is among `v`.
fn contains_position(v: &Vec<Position>, row: u32, col: u32) -> (r: bool)
    ensures
        r == v@.contains(Position { row, col }),
{
    let mut i: usize = 0;
    while i < v.len()
        invariant
            i <= v@.len(),
            forall|j: int| 0 <= j < i ==> #[trigger] v@[j] != (Position { row, col }),
        decreases v@.len() - i,
    {
        if v[i].row == row && v[i].col == col {
            return true;
        }
        i = i + 1;
    }
    false
}

fn last_sep_vec(v: &Vec<char>) -> (r: Option<usize>)
    ensures
        match r {
            Some(i) => last_sep(v@) == Some(i as int) && i < v@.len(),
            None => last_sep(v@) is None,
        },
{
    let a = rfind_char_vec(v, '/');
    let b = rfind_char_vec(v, '\\');
    match (a, b) {
        (Some(x), Some(y)) => if x >= y {
            Some(x)
        } else {
            Some(y)
        },
        (Some(x), None) => Some(x),
        (None, Some(y)) => Some(y),
        (None, None) => None,
    }
}

impl DragDropService {
    pub fn new() -> (r: Result<DragDropService, DragDropError>)
        ensures
            r matches Ok(s) && s.undo_history@.len() == 0 && s.max_undo_history == 50
                && s.icon_service.icon_cache@.len() == 0,
    {
        let icon_service = match IconService::new() {
            Ok(s) => s,
            Err(_) => IconService::with_cache_dir(String::new()),
        };
        Ok(DragDropService { icon_service, undo_history: Vec::new(), max_undo_history: 50 })
    }

    /// Analyzes dropped paths with what the file system reported about
    /// each. A path that does not exist still yields an entry, marked
    /// unknown, so one bad drop never loses the rest.
    pub fn analyze_dropped_files(&self, files: Vec<(String, FileMeta)>) -> (r: Result<
        Vec<DroppedFile>,
        DragDropError,
    >)
        ensures
            r matches Ok(out) && out@.len() == files@.len(),
            r matches Ok(out) ==> forall|i: int|
                0 <= i < out@.len() ==> (if files@[i].1.exists {
                    analyzed_file(#[trigger] out@[i], files@[i].0@, files@[i].1)
                } else {
                    &&& out@[i].path == files@[i].0
                    &&& out@[i].name@ == (if file_name_of(files@[i].0@).len() > 0 {
                        file_name_of(files@[i].0@)
                    } else {
                        "Unknown"@
                    })
                    &&& out@[i].file_type == DroppedFileType::Unknown
                    &&& out@[i].size_bytes == 0
                    &&& !out@[i].is_directory
                    &&& out@[i].icon_hint is None
                }),
    {
        let mut out: Vec<DroppedFile> = Vec::new();
        let mut i: usize = 0;
        while i < files.len()
            invariant
                i <= files@.len(),
                out@.len() == i,
                forall|k: int|
                    0 <= k < i ==> (if files@[k].1.exists {
                        analyzed_file(#[trigger] out@[k], files@[k].0@, files@[k].1)
                    } else {
                        &&& out@[k].path == files@[k].0
                        &&& out@[k].name@ == (if file_name_of(files@[k].0@).len() > 0 {
                            file_name_of(files@[k].0@)
                        } else {
                            "Unknown"@
                        })
                        &&& out@[k].file_type == DroppedFileType::Unknown
                        &&& out@[k].size_bytes == 0
                        &&& !out@[k].is_directory
                        &&& out@[k].icon_hint is None
                    }),
            decreases files@.len() - i,
        {
            let path = files[i].0.clone();
            let meta = files[i].1;
            match self.analyze_single_file(path.as_str(), &meta) {
                Ok(dropped) => {
                    out.push(dropped);
                },
                Err(_) => {
                    let name = self.display_name(path.as_str());
                    out.push(
                        DroppedFile {
                            path,
                            name,
                            file_type: DroppedFileType::Unknown,
                            size_bytes: 0,
                            is_directory: false,
                            icon_hint: None,
                        },
                    );
                },
            }
            i = i + 1;
        }
        Ok(out)
    }

    /// The display name of a path: its last component, or a placeholder
    /// when the path ends in a separator.
    fn display_name(&self, file_path: &str) -> (r: String)
        ensures
            r@ == (if file_name_of(file_path@).len() > 0 {
                file_name_of(file_path@)
            } else {
                "Unknown"@
            }),
    {
        let v = str_chars(file_path);
        let n = v.len();
        let name_chars = match last_sep_vec(&v) {
            Some(i) => crate::text::copy_range(&v, i + 1, n),
            None => crate::text::copy_range(&v, 0, n),
        };
        proof {
            assert(v@.subrange(0, v@.len() as int) =~= v@);
        }
        if name_chars.len() == 0 {
            String::from_str("Unknown")
        } else {
            chars_to_string(&name_chars)
        }
    }

    /// Analyzes one dropped path; a path the file system says does not
    /// exist is rejected.
    pub fn analyze_single_file(&self, file_path: &str, meta: &FileMeta) -> (r: Result<
        DroppedFile,
        DragDropError,
    >)
        ensures
            r is Ok <==> meta.exists,
            r matches Ok(d) ==> analyzed_file(d, file_path@, *meta),
            r is Err ==> r == Err::<DroppedFile, DragDropError>(DragDropError::FileDoesNotExist),
    {
        if !meta.exists {
            return Err(DragDropError::FileDoesNotExist);
        }
        let name = self.display_name(file_path);
        let file_type = if meta.is_directory {
            DroppedFileType::Directory
        } else {
            self.determine_file_type(file_path, meta.size_bytes)
        };
        let icon_hint = self.generate_icon_hint(file_path, &file_type);
        let mut path = String::new();
        path.append(file_path);
        Ok(
            DroppedFile {
                path,
                name,
                file_type,
                size_bytes: meta.size_bytes,
                is_directory: meta.is_directory,
                icon_hint: Some(icon_hint),
            },
        )
    }

    /// Classifies a non-directory file by its extension, falling back to
    /// the executable heuristic for unknown extensions.
    pub fn determine_file_type(&self, file_path: &str, size_bytes: u64) -> (r: DroppedFileType)
        ensures
            r == file_type_of(file_path@, size_bytes),
    {
        let v = str_chars(file_path);
        let n = v.len();
        let ext_chars = match rfind_char_vec(&v, '.') {
            Some(d) => crate::text::copy_range(&v, d + 1, n),
            None => Vec::new(),
        };
        proof {
            assert(Seq::<char>::empty() =~= lower_seq(Seq::<char>::empty()));
        }
        let ext_string = chars_to_string(&ext_chars);
        let lowered = to_lower(ext_string.as_str());
        let e = lowered.as_str();
        if str_eq(e, "exe") || str_eq(e, "msi") || str_eq(e, "bat") || str_eq(e, "cmd") || str_eq(
            e,
            "com",
        ) || str_eq(e, "scr") {
            DroppedFileType::Executable
        } else if str_eq(e, "ps1") || str_eq(e, "py") || str_eq(e, "js") || str_eq(e, "ts")
            || str_eq(e, "sh") || str_eq(e, "vbs") || str_eq(e, "wsf") {
            DroppedFileType::Script
        } else if str_eq(e, "txt") || str_eq(e, "doc") || str_eq(e, "docx") || str_eq(e, "pdf")
            || str_eq(e, "rtf") || str_eq(e, "odt") || str_eq(e, "md") || str_eq(e, "html")
            || str_eq(e, "htm") {
            DroppedFileType::Document
        } else if str_eq(e, "png") || str_eq(e, "jpg") || str_eq(e, "jpeg") || str_eq(e, "gif")
            || str_eq(e, "bmp") || str_eq(e, "ico") || str_eq(e, "svg") || str_eq(e, "webp")
            || str_eq(e, "tiff") {
            DroppedFileType::Image
        } else if str_eq(e, "mp4") || str_eq(e, "avi") || str_eq(e, "mkv") || str_eq(e, "mov")
            || str_eq(e, "wmv") || str_eq(e, "flv") || str_eq(e, "webm") || str_eq(e, "m4v") {
            DroppedFileType::Video
        } else if str_eq(e, "mp3") || str_eq(e, "wav") || str_eq(e, "flac") || str_eq(e, "aac")
            || str_eq(e, "ogg") || str_eq(e, "wma") || str_eq(e, "m4a") {
            DroppedFileType::Audio
        } else if str_eq(e, "zip") || str_eq(e, "rar") || str_eq(e, "7z") || str_eq(e, "tar")
            || str_eq(e, "gz") || str_eq(e, "bz2") || str_eq(e, "xz") || str_eq(e, "cab") {
            DroppedFileType::Archive
        } else if self.is_likely_executable(file_path, size_bytes) {
            DroppedFileType::Executable
        } else {
            DroppedFileType::Unknown
        }
    }

    /// The executable heuristic for files without a telling extension.
    pub fn is_likely_executable(&self, file_path: &str, size_bytes: u64) -> (r: bool)
        ensures
            r == likely_executable(file_path@, size_bytes),
    {
        let v = str_chars(file_path);
        let in_program_dir = match last_sep_vec(&v) {
            Some(i) => {
                let parent_chars = crate::text::copy_range(&v, 0, i);
                let parent_string = chars_to_string(&parent_chars);
                let lowered = to_lower(parent_string.as_str());
                let lv = str_chars(lowered.as_str());
                chars_contain_seq(&lv, &str_chars("program files")) || chars_contain_seq(
                    &lv,
                    &str_chars("windows\\system32"),
                ) || chars_contain_seq(&lv, &str_chars("bin"))
            },
            None => false,
        };
        in_program_dir || (size_bytes > 1024 && size_bytes < 100000000)
    }

    /// The icon hint for a classified file.
    pub fn generate_icon_hint(&self, file_path: &str, file_type: &DroppedFileType) -> (r: String)
        ensures
            r@ == icon_hint_of(file_path@, *file_type),
    {
        match file_type {
            DroppedFileType::Executable => {
                let mut p = String::new();
                p.append(file_path);
                p
            },
            DroppedFileType::Image => {
                let mut p = String::new();
                p.append(file_path);
                p
            },
            DroppedFileType::Directory => String::from_str("\u{1F4C1}"),
            DroppedFileType::Document => String::from_str("\u{1F4C4}"),
            DroppedFileType::Video => String::from_str("\u{1F3AC}"),
            DroppedFileType::Audio => String::from_str("\u{1F3B5}"),
            DroppedFileType::Archive => String::from_str("\u{1F4E6}"),
            DroppedFileType::Script => String::from_str("\u{1F4DC}"),
            DroppedFileType::Unknown => String::from_str("\u{2753}"),
        }
    }

    /// The free positions chosen for new buttons: distinct, unoccupied,
    /// and inside the one-based grid. Placement starts around the drop
    /// target when one is given, spreading to adjacent cells, and falls
    /// back to scanning the grid row by row, so as many positions are
    /// found as the request needs or the grid has free.
    pub fn find_available_positions(
        &self,
        rows: u32,
        cols: u32,
        existing_buttons: &Vec<ActionButton>,
        target_position: Option<Position>,
        needed_count: usize,
    ) -> (r: Vec<Position>)
        ensures
            forall|i: int, j: int| 0 <= i < j < r@.len() ==> #[trigger] r@[i] != #[trigger] r@[j],
            forall|i: int|
                0 <= i < r@.len() ==> !occupied(
                    existing_buttons@,
                    (#[trigger] r@[i]).row,
                    r@[i].col,
                ),
            forall|i: int|
                0 <= i < r@.len() ==> 1 <= (#[trigger] r@[i]).row && r@[i].row <= rows && 1
                    <= r@[i].col && r@[i].col <= cols,
            needed_count > 0 ==> r@.len() <= needed_count,
            needed_count > 0 ==> r@.len() >= (if needed_count as int <= free_cells(
                existing_buttons@,
                rows as int,
                cols as int,
            ) {
                needed_count as int
            } else {
                free_cells(existing_buttons@, rows as int, cols as int) as int
            }),
    {
        let mut available: Vec<Position> = Vec::new();
        let mut visited: Vec<Position> = Vec::new();
        match target_position {
            Some(target) => {
                if target.row >= 1 && target.row <= rows && target.col >= 1 && target.col <= cols
                    && !is_occupied(existing_buttons, target.row, target.col) {
                    available.push(target);
                    visited.push(target);
                    let mut search: Vec<Position> = Vec::new();
                    search.push(target);
                    let limit: u64 = u64::MAX;
                    let mut rounds: u64 = 0;
                    while available.len() < needed_count && search.len() > 0 && rounds < limit
                        invariant
                            limit == u64::MAX,
                            rounds <= limit,
                            needed_count > 0 ==> available@.len() <= needed_count,
                            forall|i: int, j: int|
                                0 <= i < j < available@.len() ==> #[trigger] available@[i]
                                    != #[trigger] available@[j],
                            forall|i: int|
                                0 <= i < available@.len() ==> !occupied(
                                    existing_buttons@,
                                    (#[trigger] available@[i]).row,
                                    available@[i].col,
                                ),
                            forall|i: int|
                                0 <= i < available@.len() ==> 1 <= (
                                #[trigger] available@[i]).row && available@[i].row <= rows && 1
                                    <= available@[i].col && available@[i].col <= cols,
                            forall|i: int|
                                0 <= i < available@.len() ==> visited@.contains(
                                    #[trigger] available@[i],
                                ),
                        decreases limit - rounds,
                    {
                        rounds = rounds + 1;
                        let mut next_search: Vec<Position> = Vec::new();
                        let mut s: usize = 0;
                        while s < search.len() && available.len() < needed_count
                            invariant
                                s <= search@.len(),
                                needed_count > 0 ==> available@.len() <= needed_count,
                                forall|i: int, j: int|
                                    0 <= i < j < available@.len() ==> #[trigger] available@[i]
                                        != #[trigger] available@[j],
                                forall|i: int|
                                    0 <= i < available@.len() ==> !occupied(
                                        existing_buttons@,
                                        (#[trigger] available@[i]).row,
                                        available@[i].col,
                                    ),
                                forall|i: int|
                                    0 <= i < available@.len() ==> 1 <= (
                                    #[trigger] available@[i]).row && available@[i].row <= rows
                                        && 1 <= available@[i].col && available@[i].col <= cols,
                                forall|i: int|
                                    0 <= i < available@.len() ==> visited@.contains(
                                        #[trigger] available@[i],
                                    ),
                            decreases search@.len() - s,
                        {
                            let row = search[s].row;
                            let col = search[s].col;
                            let mut a: usize = 0;
                            while a < 4 && available.len() < needed_count
                                invariant
                                    a <= 4,
                                    needed_count > 0 ==> available@.len() <= needed_count,
                                    forall|i: int, j: int|
                                        0 <= i < j < available@.len() ==> #[trigger] available@[i]
                                            != #[trigger] available@[j],
                                    forall|i: int|
                                        0 <= i < available@.len() ==> !occupied(
                                            existing_buttons@,
                                            (#[trigger] available@[i]).row,
                                            available@[i].col,
                                        ),
                                    forall|i: int|
                                        0 <= i < available@.len() ==> 1 <= (
                                        #[trigger] available@[i]).row && available@[i].row <= rows
                                            && 1 <= available@[i].col && available@[i].col
                                            <= cols,
                                    forall|i: int|
                                        0 <= i < available@.len() ==> visited@.contains(
                                            #[trigger] available@[i],
                                        ),
                                decreases 4 - a,
                            {
                                let adj_row: u32;
                                let adj_col: u32;
                                if a == 0 {
                                    adj_row = row;
                                    adj_col = if col < u32::MAX {
                                        col + 1
                                    } else {
                                        0
                                    };
                                } else if a == 1 {
                                    adj_row = if row < u32::MAX {
                                        row + 1
                                    } else {
                                        0
                                    };
                                    adj_col = col;
                                } else if a == 2 {
                                    adj_row = row;
                                    adj_col = if col > 0 {
                                        col - 1
                                    } else {
                                        0
                                    };
                                } else {
                                    adj_row = if row > 0 {
                                        row - 1
                                    } else {
                                        0
                                    };
                                    adj_col = col;
                                }
                                let candidate = Position { row: adj_row, col: adj_col };
                                if adj_row > 0 && adj_row <= rows && adj_col > 0 && adj_col <= cols
                                    && !is_occupied(existing_buttons, adj_row, adj_col)
                                    && !contains_position(&visited, adj_row, adj_col) {
                                    let ghost old_available = available@;
                                    let ghost old_visited = visited@;
                                    available.push(candidate);
                                    visited.push(candidate);
                                    next_search.push(candidate);
                                    proof {
                                        assert forall|i: int|
                                            0 <= i < old_available.len() implies visited@.contains(
                                            #[trigger] old_available[i],
                                        ) by {
                                            let j = choose|j: int|
                                                0 <= j < old_visited.len() && old_visited[j]
                                                    == old_available[i];
                                            assert(visited@[j] == old_available[i]);
                                        }
                                        assert(visited@[old_visited.len() as int] == candidate);
                                    }
                                }
                                a = a + 1;
                            }
                            s = s + 1;
                        }
                        search = next_search;
                    }
                }
            },
            None => {},
        }
        if available.len() < needed_count {
            let mut row: u64 = 1;
            while row <= rows as u64
                invariant
                    1 <= row <= rows as u64 + 1,
                    needed_count > 0,
                    available@.len() < needed_count,
                    forall|i: int, j: int|
                        0 <= i < j < available@.len() ==> #[trigger] available@[i]
                            != #[trigger] available@[j],
                    forall|i: int|
                        0 <= i < available@.len() ==> !occupied(
                            existing_buttons@,
                            (#[trigger] available@[i]).row,
                            available@[i].col,
                        ),
                    forall|i: int|
                        0 <= i < available@.len() ==> 1 <= (#[trigger] available@[i]).row
                            && available@[i].row <= rows && 1 <= available@[i].col
                            && available@[i].col <= cols,
                    forall|r0: int, c0: int|
                        (1 <= r0 < row && 1 <= c0 <= cols && cell_free(
                            existing_buttons@,
                            r0,
                            c0,
                        )) ==> #[trigger] available@.contains(
                            Position { row: r0 as u32, col: c0 as u32 },
                        ),
                decreases rows as u64 - row + 1,
            {
                let mut col: u64 = 1;
                while col <= cols as u64
                    invariant
                        1 <= row <= rows as u64,
                        1 <= col <= cols as u64 + 1,
                        needed_count > 0,
                        available@.len() < needed_count,
                        forall|i: int, j: int|
                            0 <= i < j < available@.len() ==> #[trigger] available@[i]
                                != #[trigger] available@[j],
                        forall|i: int|
                            0 <= i < available@.len() ==> !occupied(
                                existing_buttons@,
                                (#[trigger] available@[i]).row,
                                available@[i].col,
                            ),
                        forall|i: int|
                            0 <= i < available@.len() ==> 1 <= (#[trigger] available@[i]).row
                                && available@[i].row <= rows && 1 <= available@[i].col
                                && available@[i].col <= cols,
                        forall|r0: int, c0: int|
                            (1 <= r0 < row && 1 <= c0 <= cols && cell_free(
                                existing_buttons@,
                                r0,
                                c0,
                            )) ==> #[trigger] available@.contains(
                                Position { row: r0 as u32, col: c0 as u32 },
                            ),
                        forall|c0: int|
                            (1 <= c0 < col && cell_free(existing_buttons@, row as int, c0))
                                ==> #[trigger] available@.contains(
                                Position { row: row as u32, col: c0 as u32 },
                            ),
                    decreases cols as u64 - col + 1,
                {
                    let r32 = row as u32;
                    let c32 = col as u32;
                    if is_occupied(existing_buttons, r32, c32) {
                        proof {
                            assert(!cell_free(existing_buttons@, row as int, col as int));
                        }
                    } else if contains_position(&available, r32, c32) {
                        proof {
                            assert(available@.contains(
                                Position { row: row as u32, col: col as u32 },
                            ));
                        }
                    } else {
                        let ghost old_available = available@;
                        available.push(Position { row: r32, col: c32 });
                        proof {
                            assert(available@[old_available.len() as int] == (Position {
                                row: row as u32,
                                col: col as u32,
                            }));
                            assert(available@.contains(
                                Position { row: row as u32, col: col as u32 },
                            ));
                            assert forall|r0: int, c0: int|
                                (1 <= r0 < row && 1 <= c0 <= cols && cell_free(
                                    existing_buttons@,
                                    r0,
                                    c0,
                                )) implies available@.contains(
                                Position { row: r0 as u32, col: c0 as u32 },
                            ) by {
                                let q = Position { row: r0 as u32, col: c0 as u32 };
                                assert(old_available.contains(q));
                                let j = choose|j: int|
                                    0 <= j < old_available.len() && old_available[j] == q;
                                assert(available@[j] == q);
                            }
                            assert forall|c0: int|
                                (1 <= c0 < col && cell_free(
                                    existing_buttons@,
                                    row as int,
                                    c0,
                                )) implies available@.contains(
                                Position { row: row as u32, col: c0 as u32 },
                            ) by {
                                let q = Position { row: row as u32, col: c0 as u32 };
                                assert(old_available.contains(q));
                                let j = choose|j: int|
                                    0 <= j < old_available.len() && old_available[j] == q;
                                assert(available@[j] == q);
                            }
                        }
                        if available.len() >= needed_count {
                            return available;
                        }
                    }
                    col = col + 1;
                }
                row = row + 1;
            }
            proof {
                if rows >= 1 {
                    lemma_cover_count(
                        available@,
                        existing_buttons@,
                        rows as int,
                        cols as int,
                        cols as int,
                    );
                }
            }
        }
        available
    }

    /// Generates a button for each dropped file, placing them on free
    /// grid cells: a button is owed for every file while free cells
    /// remain, and only the remaining files yield error entries. Since
    /// chosen cells are free, no placement conflicts with an existing
    /// button.
    pub fn generate_buttons_from_files(
        &mut self,
        request: ButtonGenerationRequest,
        cwd: &str,
    ) -> (r: Result<ButtonGenerationResult, DragDropError>)
        ensures
            r matches Ok(res) && {
                &&& res.generated_buttons@.len() == res.placement_positions@.len()
                &&& res.generated_buttons@.len() + res.errors@.len() == request.files@.len()
                &&& res.conflicts@.len() == 0
                &&& (request.files@.len() > 0 ==> res.generated_buttons@.len() >= (
                if request.files@.len() as int <= free_cells(
                    request.existing_buttons@,
                    request.grid_rows as int,
                    request.grid_cols as int,
                ) {
                    request.files@.len() as int
                } else {
                    free_cells(
                        request.existing_buttons@,
                        request.grid_rows as int,
                        request.grid_cols as int,
                    ) as int
                }))
                &&& forall|i: int|
                    0 <= i < res.generated_buttons@.len() ==> button_built(
                        #[trigger] res.generated_buttons@[i],
                        request.files@[i],
                        res.placement_positions@[i],
                        cwd@,
                    )
            },
    {
        let available = self.find_available_positions(
            request.grid_rows,
            request.grid_cols,
            &request.existing_buttons,
            request.target_position,
            request.files.len(),
        );
        let mut generated_buttons: Vec<ActionButton> = Vec::new();
        let mut placement_positions: Vec<Position> = Vec::new();
        let mut errors: Vec<String> = Vec::new();
        let mut index: usize = 0;
        while index < request.files.len()
            invariant
                index <= request.files@.len(),
                generated_buttons@.len() == placement_positions@.len(),
                generated_buttons@.len() + errors@.len() == index,
                generated_buttons@.len() <= available@.len(),
                generated_buttons@.len() == index || generated_buttons@.len()
                    == available@.len(),
                forall|i: int|
                    0 <= i < available@.len() ==> !occupied(
                        request.existing_buttons@,
                        (#[trigger] available@[i]).row,
                        available@[i].col,
                    ),
                forall|i: int|
                    0 <= i < placement_positions@.len() ==> !occupied(
                        request.existing_buttons@,
                        (#[trigger] placement_positions@[i]).row,
                        placement_positions@[i].col,
                    ),
                forall|i: int|
                    0 <= i < generated_buttons@.len() ==> button_built(
                        #[trigger] generated_buttons@[i],
                        request.files@[i],
                        placement_positions@[i],
                        cwd@,
                    ),
            decreases request.files@.len() - index,
        {
            if index >= available.len() || generated_buttons.len() >= available.len() {
                let mut e = String::from_str("No available position for file: ");
                e.append(request.files[index].name.as_str());
                errors.push(e);
            } else {
                let pos = available[generated_buttons.len()];
                let file = &request.files[index];
                match self.create_button_from_file(file, pos, cwd) {
                    Ok(button) => {
                        generated_buttons.push(button);
                        placement_positions.push(pos);
                    },
                    Err(_) => {
                        let mut e = String::from_str("Failed to create button for: ");
                        e.append(request.files[index].name.as_str());
                        errors.push(e);
                    },
                }
            }
            index = index + 1;
        }
        let mut conflicts: Vec<Position> = Vec::new();
        let mut c: usize = 0;
        while c < placement_positions.len()
            invariant
                c <= placement_positions@.len(),
                conflicts@.len() == 0,
                forall|i: int|
                    0 <= i < placement_positions@.len() ==> !occupied(
                        request.existing_buttons@,
                        (#[trigger] placement_positions@[i]).row,
                        placement_positions@[i].col,
                    ),
            decreases placement_positions@.len() - c,
        {
            if is_occupied(
                &request.existing_buttons,
                placement_positions[c].row,
                placement_positions[c].col,
            ) {
                conflicts.push(placement_positions[c]);
            }
            c = c + 1;
        }
        Ok(ButtonGenerationResult { generated_buttons, placement_positions, conflicts, errors })
    }

    /// Builds the button for one dropped file at a grid position.
    pub fn create_button_from_file(
        &mut self,
        file: &DroppedFile,
        position: Position,
        cwd: &str,
    ) -> (r: Result<ActionButton, DragDropError>)
        ensures
            r matches Ok(b) && button_built(b, *file, position, cwd@),
    {
        let action_type = match file.file_type {
            DroppedFileType::Executable => ActionType::LaunchApp,
            DroppedFileType::Directory => ActionType::Open,
            DroppedFileType::Script => ActionType::LaunchApp,
            _ => ActionType::Open,
        };
        let config = match file.file_type {
            DroppedFileType::Executable => self.create_launch_app_config(file, cwd)?,
            DroppedFileType::Directory => self.create_open_config(file, cwd)?,
            DroppedFileType::Script => self.create_script_config(file, cwd)?,
            _ => self.create_open_config(file, cwd)?,
        };
        let label = self.generate_button_label(file.name.as_str());
        let icon = match &file.icon_hint {
            Some(hint) => {
                match self.icon_service.process_icon(hint.as_str(), Some(file.path.as_str())) {
                    Ok(info) => match info.icon_type {
                        IconType::Emoji => Some(info.path),
                        _ => Some(hint.clone()),
                    },
                    Err(_) => Some(hint.clone()),
                }
            },
            None => None,
        };
        let style = self.create_button_style(&file.file_type);
        Ok(ActionButton { position, action_type, label, icon, config, style, action: None })
    }

    /// The configuration map for opening a dropped target: the target
    /// resolved to an absolute path, under the default verb.
    pub fn create_open_config(&self, file: &DroppedFile, cwd: &str) -> (r: Result<
        Vec<(String, ConfigValue)>,
        DragDropError,
    >)
        ensures
            r matches Ok(m) && open_cfg(m@, file.path@, cwd@),
    {
        let target = crate::paths::normalize_path(file.path.as_str(), cwd);
        let mut m: Vec<(String, ConfigValue)> = Vec::new();
        m.push((String::from_str("target"), ConfigValue::Str(target)));
        m.push((String::from_str("verb"), ConfigValue::Str(String::from_str("open"))));
        Ok(m)
    }

    /// The configuration map for launching a dropped executable or
    /// script: the absolute path (or the script's interpreter with the
    /// path as argument), with the containing directory as working
    /// directory.
    pub fn create_launch_app_config(&self, file: &DroppedFile, cwd: &str) -> (r: Result<
        Vec<(String, ConfigValue)>,
        DragDropError,
    >)
        ensures
            r matches Ok(m) && launch_cfg(m@, file.path@, cwd@, file.file_type),
    {
        proof {
            reveal_strlit("path");
            reveal_strlit("workdir");
            reveal_strlit("args");
            reveal_with_fuel(crate::config::map_lookup, 5);
        }
        let ghost abs_spec = normalize_target(file.path@, cwd@);
        let abs = crate::paths::normalize_path(file.path.as_str(), cwd);
        let v = str_chars(abs.as_str());
        let n = v.len();
        let ext_chars = match rfind_char_vec(&v, '.') {
            Some(d) => crate::text::copy_range(&v, d + 1, n),
            None => Vec::new(),
        };
        proof {
            assert(Seq::<char>::empty() =~= lower_seq(Seq::<char>::empty()));
        }
        let ext_string = chars_to_string(&ext_chars);
        let ext = to_lower(ext_string.as_str());
        let parent = match last_sep_vec(&v) {
            Some(i) => Some(chars_to_string(&crate::text::copy_range(&v, 0, i))),
            None => None,
        };
        let is_script = matches!(file.file_type, DroppedFileType::Script);
        let mut m: Vec<(String, ConfigValue)> = Vec::new();
        if is_script && str_eq(ext.as_str(), "ps1") {
            m.push((String::from_str("path"), ConfigValue::Str(String::from_str("powershell.exe"))));
            match parent {
                Some(p) => {
                    m.push((String::from_str("workdir"), ConfigValue::Str(p)));
                },
                None => {},
            }
            let mut args: Vec<ConfigValue> = Vec::new();
            args.push(ConfigValue::Str(String::from_str("-ExecutionPolicy")));
            args.push(ConfigValue::Str(String::from_str("Bypass")));
            args.push(ConfigValue::Str(String::from_str("-File")));
            args.push(ConfigValue::Str(abs));
            m.push((String::from_str("args"), ConfigValue::List(args)));
            proof {
                let mm = m@;
                reveal_strlit("path");
                reveal_strlit("workdir");
                reveal_strlit("args");
                assert("path"@[0] == 'p' && "args"@[0] == 'a' && "workdir"@[0] == 'w');
                assert(mm[0].0@ == "path"@);
                crate::config::lemma_map_lookup_first_match(mm, "path"@, 0);
                if mm.len() >= 2 && mm[1].0@ == "workdir"@ {
                    crate::config::lemma_map_lookup_first_match(mm, "workdir"@, 1);
                } else {
                    crate::config::lemma_map_lookup_absent(mm, "workdir"@);
                }
                assert(forall|j: int|
                    0 <= j < mm.len() - 1 ==> ((#[trigger] mm[j]).0@ == "path"@ || mm[j].0@
                        == "workdir"@));
                if mm[mm.len() - 1].0@ == "args"@ {
                    crate::config::lemma_map_lookup_first_match(mm, "args"@, mm.len() - 1);
                } else {
                    assert(forall|j: int|
                        0 <= j < mm.len() ==> ((#[trigger] mm[j]).0@ == "path"@ || mm[j].0@
                            == "workdir"@));
                    crate::config::lemma_map_lookup_absent(mm, "args"@);
                }
            }
        } else if is_script && str_eq(ext.as_str(), "py") {
            m.push((String::from_str("path"), ConfigValue::Str(String::from_str("python"))));
            match parent {
                Some(p) => {
                    m.push((String::from_str("workdir"), ConfigValue::Str(p)));
                },
                None => {},
            }
            let mut args: Vec<ConfigValue> = Vec::new();
            args.push(ConfigValue::Str(abs));
            m.push((String::from_str("args"), ConfigValue::List(args)));
            proof {
                let mm = m@;
                reveal_strlit("path");
                reveal_strlit("workdir");
                reveal_strlit("args");
                assert("path"@[0] == 'p' && "args"@[0] == 'a' && "workdir"@[0] == 'w');
                assert(mm[0].0@ == "path"@);
                crate::config::lemma_map_lookup_first_match(mm, "path"@, 0);
                if mm.len() >= 2 && mm[1].0@ == "workdir"@ {
                    crate::config::lemma_map_lookup_first_match(mm, "workdir"@, 1);
                } else {
                    crate::config::lemma_map_lookup_absent(mm, "workdir"@);
                }
                assert(forall|j: int|
                    0 <= j < mm.len() - 1 ==> ((#[trigger] mm[j]).0@ == "path"@ || mm[j].0@
                        == "workdir"@));
                if mm[mm.len() - 1].0@ == "args"@ {
                    crate::config::lemma_map_lookup_first_match(mm, "args"@, mm.len() - 1);
                } else {
                    assert(forall|j: int|
                        0 <= j < mm.len() ==> ((#[trigger] mm[j]).0@ == "path"@ || mm[j].0@
                            == "workdir"@));
                    crate::config::lemma_map_lookup_absent(mm, "args"@);
                }
            }
        } else if is_script && str_eq(ext.as_str(), "js") {
            m.push((String::from_str("path"), ConfigValue::Str(String::from_str("node"))));
            match parent {
                Some(p) => {
                    m.push((String::from_str("workdir"), ConfigValue::Str(p)));
                },
                None => {},
            }
            let mut args: Vec<ConfigValue> = Vec::new();
            args.push(ConfigValue::Str(abs));
            m.push((String::from_str("args"), ConfigValue::List(args)));
            proof {
                let mm = m@;
                reveal_strlit("path");
                reveal_strlit("workdir");
                reveal_strlit("args");
                assert("path"@[0] == 'p' && "args"@[0] == 'a' && "workdir"@[0] == 'w');
                assert(mm[0].0@ == "path"@);
                crate::config::lemma_map_lookup_first_match(mm, "path"@, 0);
                if mm.len() >= 2 && mm[1].0@ == "workdir"@ {
                    crate::config::lemma_map_lookup_first_match(mm, "workdir"@, 1);
                } else {
                    crate::config::lemma_map_lookup_absent(mm, "workdir"@);
                }
                assert(forall|j: int|
                    0 <= j < mm.len() - 1 ==> ((#[trigger] mm[j]).0@ == "path"@ || mm[j].0@
                        == "workdir"@));
                if mm[mm.len() - 1].0@ == "args"@ {
                    crate::config::lemma_map_lookup_first_match(mm, "args"@, mm.len() - 1);
                } else {
                    assert(forall|j: int|
                        0 <= j < mm.len() ==> ((#[trigger] mm[j]).0@ == "path"@ || mm[j].0@
                            == "workdir"@));
                    crate::config::lemma_map_lookup_absent(mm, "args"@);
                }
            }
        } else {
            m.push((String::from_str("path"), ConfigValue::Str(abs)));
            match parent {
                Some(p) => {
                    m.push((String::from_str("workdir"), ConfigValue::Str(p)));
                },
                None => {},
            }
            proof {
                let mm = m@;
                reveal_strlit("path");
                reveal_strlit("workdir");
                reveal_strlit("args");
                assert("path"@[0] == 'p' && "args"@[0] == 'a' && "workdir"@[0] == 'w');
                assert(mm[0].0@ == "path"@);
                crate::config::lemma_map_lookup_first_match(mm, "path"@, 0);
                if mm.len() >= 2 && mm[1].0@ == "workdir"@ {
                    crate::config::lemma_map_lookup_first_match(mm, "workdir"@, 1);
                } else {
                    crate::config::lemma_map_lookup_absent(mm, "workdir"@);
                }
                assert(forall|j: int|
                    0 <= j < mm.len() - 1 ==> ((#[trigger] mm[j]).0@ == "path"@ || mm[j].0@
                        == "workdir"@));
                if mm[mm.len() - 1].0@ == "args"@ {
                    crate::config::lemma_map_lookup_first_match(mm, "args"@, mm.len() - 1);
                } else {
                    assert(forall|j: int|
                        0 <= j < mm.len() ==> ((#[trigger] mm[j]).0@ == "path"@ || mm[j].0@
                            == "workdir"@));
                    crate::config::lemma_map_lookup_absent(mm, "args"@);
                }
            }
        }
        Ok(m)
    }

    /// Scripts launch through their interpreter, with the same map shape
    /// as other launches.
    pub fn create_script_config(&self, file: &DroppedFile, cwd: &str) -> (r: Result<
        Vec<(String, ConfigValue)>,
        DragDropError,
    >)
        ensures
            r matches Ok(m) && launch_cfg(m@, file.path@, cwd@, file.file_type),
    {
        self.create_launch_app_config(file, cwd)
    }

    /// A display label for a file name: the stem with underscores and
    /// hyphens as spaces, each word capitalized, shortened with an
    /// ellipsis when over twenty characters.
    pub fn generate_button_label(&self, filename: &str) -> (r: String)
        ensures
            r@ == label_of(filename@),
    {
        let v = str_chars(filename);
        let n = v.len();
        let stem_end = match rfind_char_vec(&v, '.') {
            Some(d) => if d > 0 {
                d
            } else {
                n
            },
            None => n,
        };
        let stem = crate::text::copy_range(&v, 0, stem_end);
        proof {
            assert(v@.subrange(0, v@.len() as int) =~= v@);
        }
        let mut sp: Vec<char> = Vec::new();
        let mut i: usize = 0;
        while i < stem.len()
            invariant
                i <= stem@.len(),
                sp@.len() == i,
                forall|j: int|
                    0 <= j < i ==> sp@[j] == (if stem@[j] == '_' || stem@[j] == '-' {
                        ' '
                    } else {
                        stem@[j]
                    }),
            decreases stem@.len() - i,
        {
            let c = stem[i];
            if c == '_' || c == '-' {
                sp.push(' ');
            } else {
                sp.push(c);
            }
            i = i + 1;
        }
        proof {
            assert(sp@ =~= spaced(stem@));
        }
        let mut out: Vec<char> = Vec::new();
        let mut emitted = false;
        let mut in_word = false;
        let mut k: usize = 0;
        while k < sp.len()
            invariant
                k <= sp@.len(),
                title_from(sp@, 0, false, false) == out@ + title_from(
                    sp@,
                    k as int,
                    emitted,
                    in_word,
                ),
                in_word ==> emitted,
            decreases sp@.len() - k,
        {
            let c = sp[k];
            let ghost pre = out@;
            if c == ' ' || c == '\t' || c == '\n' || c == '\r' {
                in_word = false;
            } else if in_word {
                out.push(c);
                proof {
                    assert(pre + (seq![sp@[k as int]] + title_from(sp@, k + 1, true, true)) =~= (
                    pre + seq![sp@[k as int]]) + title_from(sp@, k + 1, true, true));
                    assert(out@ =~= pre + seq![sp@[k as int]]);
                }
            } else if emitted {
                out.push(' ');
                out.push(upper_char_exec(c));
                proof {
                    assert(pre + (seq![' ', upper_char(sp@[k as int])] + title_from(
                        sp@,
                        k + 1,
                        true,
                        true,
                    )) =~= (pre + seq![' ', upper_char(sp@[k as int])]) + title_from(
                        sp@,
                        k + 1,
                        true,
                        true,
                    ));
                    assert(out@ =~= pre + seq![' ', upper_char(sp@[k as int])]);
                }
                in_word = true;
            } else {
                out.push(upper_char_exec(c));
                proof {
                    assert(pre + (seq![upper_char(sp@[k as int])] + title_from(
                        sp@,
                        k + 1,
                        true,
                        true,
                    )) =~= (pre + seq![upper_char(sp@[k as int])]) + title_from(
                        sp@,
                        k + 1,
                        true,
                        true,
                    ));
                    assert(out@ =~= pre + seq![upper_char(sp@[k as int])]);
                }
                emitted = true;
                in_word = true;
            }
            k = k + 1;
        }
        proof {
            assert(out@ + Seq::<char>::empty() =~= out@);
        }
        if out.len() > 20 {
            let mut shortened = crate::text::copy_range(&out, 0, 17);
            shortened.push('.');
            shortened.push('.');
            shortened.push('.');
            proof {
                reveal_strlit("...");
                assert(shortened@ =~= out@.subrange(0, 17) + "..."@);
            }
            chars_to_string(&shortened)
        } else {
            chars_to_string(&out)
        }
    }

    /// The colors a button gets for each file classification.
    pub fn create_button_style(&self, file_type: &DroppedFileType) -> (r: Option<ButtonStyle>)
        ensures
            r matches Some(st) && {
                &&& st.background_color matches Some(b) && b@ == background_color_of(*file_type)
                &&& st.text_color matches Some(t) && t@ == "#FFFFFF"@
                &&& st.font_size is None
                &&& st.font_family is None
            },
    {
        let background = match file_type {
            DroppedFileType::Executable => String::from_str("#4CAF50"),
            DroppedFileType::Directory => String::from_str("#2196F3"),
            DroppedFileType::Document => String::from_str("#FF9800"),
            DroppedFileType::Image => String::from_str("#E91E63"),
            DroppedFileType::Video => String::from_str("#9C27B0"),
            DroppedFileType::Audio => String::from_str("#607D8B"),
            DroppedFileType::Archive => String::from_str("#795548"),
            DroppedFileType::Script => String::from_str("#009688"),
            DroppedFileType::Unknown => String::from_str("#757575"),
        };
        Some(
            ButtonStyle {
                background_color: Some(background),
                text_color: Some(String::from_str("#FFFFFF")),
                font_size: None,
                font_family: None,
            },
        )
    }

    /// Records an undoable operation, keeping the history bounded: the
    /// oldest entry falls out when the cap is exceeded.
    pub fn add_undo_operation(&mut self, operation: UndoOperation)
        ensures
            old(self).undo_history@.len() < old(self).max_undo_history
                ==> final(self).undo_history@ == old(self).undo_history@.push(operation),
            old(self).undo_history@.len() >= old(self).max_undo_history
                ==> final(self).undo_history@ == old(self).undo_history@.push(
                operation,
            ).drop_first(),
            final(self).max_undo_history == old(self).max_undo_history,
    {
        self.undo_history.push(operation);
        if self.undo_history.len() > self.max_undo_history {
            self.undo_history.remove(0);
            proof {
                assert(self.undo_history@ =~= old(self).undo_history@.push(
                    operation,
                ).drop_first());
            }
        }
    }

    /// The most recent undoable operation, if any.
    pub fn get_last_undo_operation(&self) -> (r: Option<&UndoOperation>)
        ensures
            self.undo_history@.len() > 0 ==> (r matches Some(op) && *op
                == self.undo_history@.last()),
            self.undo_history@.len() == 0 ==> r is None,
    {
        if self.undo_history.len() == 0 {
            None
        } else {
            Some(&self.undo_history[self.undo_history.len() - 1])
        }
    }

    /// Removes and returns the most recent undoable operation.
    pub fn pop_undo_operation(&mut self) -> (r: Option<UndoOperation>)
        ensures
            old(self).undo_history@.len() > 0 ==> (r matches Some(op) && op == old(
                self,
            ).undo_history@.last() && final(self).undo_history@ == old(self).undo_history@.drop_last()),
            old(self).undo_history@.len() == 0 ==> r is None && *final(self) == *old(self),
            final(self).max_undo_history == old(self).max_undo_history,
    {
        if self.undo_history.len() == 0 {
            None
        } else {
            self.undo_history.pop()
        }
    }

    /// Forgets the undo history.
    pub fn clear_undo_history(&mut self)
        ensures
            final(self).undo_history@.len() == 0,
            final(self).max_undo_history == old(self).max_undo_history,
    {
        self.undo_history.clear();
    }

    /// How many operations are recorded, and the cap.
    pub fn get_undo_stats(&self) -> (r: (usize, usize))
        ensures
            r.0 == self.undo_history@.len(),
            r.1 == self.max_undo_history,
    {
        (self.undo_history.len(), self.max_undo_history)
    }
}

} // verus!
