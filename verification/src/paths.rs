//! File paths as text.
use crate::text;
use vstd::prelude::*;

verus! {

/// A path that means the same on every platform: no backslash, no colon, and no double slash at
/// its start.
pub open spec fn is_portable(path: Seq<char>) -> bool {
    &&& forall|i: int| 0 <= i < path.len() ==> path[i] != '\\' && path[i] != ':'
    &&& !(path.len() >= 2 && path[0] == '/' && path[1] == '/')
}

/// The pieces of a path that count as components: neither empty nor a single dot.
pub open spec fn components(pieces: Seq<Seq<char>>) -> Seq<Seq<char>> {
    pieces.filter(|p: Seq<char>| p.len() > 0 && p != seq!['.'])
}

/// The file name that a portable path ends in.
pub open spec fn final_component(path: Seq<char>) -> Option<Seq<char>> {
    let parts = components(text::split_pieces(path, '/'));
    if parts.len() == 0 || parts.last() == seq!['.', '.'] {
        None
    } else {
        Some(parts.last())
    }
}

/// A name that is one component.
pub open spec fn is_plain_name(name: Seq<char>) -> bool {
    &&& name.len() > 0
    &&& name != seq!['.']
    &&& name != seq!['.', '.']
    &&& forall|i: int| 0 <= i < name.len() ==> name[i] != '/' && name[i] != '\\' && name[i] != ':'
}

/// A name of three characters or more without separators is one component.
pub proof fn lemma_long_name_is_plain(name: Seq<char>)
    requires
        name.len() > 2,
        forall|i: int|
            0 <= i < name.len() ==> name[i] != '/' && name[i] != '\\' && name[i] != ':',
    ensures
        is_plain_name(name),
{
}

/// A slash or a backslash: every platform separates components by the one, some by the other too.
pub open spec fn is_separator(c: char) -> bool {
    c == '/' || c == '\\'
}

/// A path that begins with two separators, as those do on Windows that name a server or a device.
pub open spec fn begins_doubly(path: Seq<char>) -> bool {
    path.len() >= 2 && is_separator(path[0]) && is_separator(path[1])
}

/// A path that begins with two backslashes and a question mark. Windows takes such a path as it
/// stands: slashes separate nothing in it.
pub open spec fn is_verbatim(path: Seq<char>) -> bool {
    path.len() >= 3 && path[0] == '\\' && path[1] == '\\' && path[2] == '?'
}

/// The path with slashes for its backslashes.
pub open spec fn slashed(path: Seq<char>) -> Seq<char> {
    Seq::new(
        path.len(),
        |i: int|
            if path[i] == '\\' {
                '/'
            } else {
                path[i]
            },
    )
}

/// An ASCII letter.
pub open spec fn is_letter(c: char) -> bool {
    'a' as u32 <= c as u32 <= 'z' as u32 || 'A' as u32 <= c as u32 <= 'Z' as u32
}

/// Does the text begin with a drive, as paths may on Windows?
pub open spec fn has_drive(path: Seq<char>) -> bool {
    path.len() >= 2 && is_letter(path[0]) && path[1] == ':'
}

/// What stands between the separators of a path where backslashes separate too.
pub open spec fn pieces(path: Seq<char>) -> Seq<Seq<char>> {
    text::split_pieces(slashed(path), '/')
}

/// A path that begins with two separators, a server and a share of it.
pub open spec fn names_share(path: Seq<char>) -> bool {
    &&& begins_doubly(path)
    &&& !is_verbatim(path)
    &&& pieces(path).len() >= 4
    &&& pieces(path)[2].len() > 0
    &&& pieces(path)[3].len() > 0
}

/// A path that begins with two separators and is verbatim or names no share of a server.
pub open spec fn is_unusual(path: Seq<char>) -> bool {
    begins_doubly(path) && !names_share(path)
}

/// How many characters of a path name a share or a drive on Windows.
pub open spec fn prefix_len(path: Seq<char>) -> int {
    if names_share(path) {
        3int + pieces(path)[2].len() + pieces(path)[3].len()
    } else if has_drive(path) {
        2
    } else {
        0
    }
}

/// The file name that a path ends in where backslashes separate components too and a path may begin
/// with a share or a drive.
pub open spec fn windows_component(path: Seq<char>) -> Option<Seq<char>> {
    final_component(slashed(path.skip(prefix_len(path))))
}

/// The file name that Windows finds in a path that begins with two separators and is verbatim or
/// names no share of a server.
pub uninterp spec fn unusual_name(path: Seq<char>) -> Option<Seq<char>>;

/// The file name that a path ends in, where backslashes separate components too or where they do
/// not.
pub open spec fn file_name_in(backslashes: bool, path: Seq<char>) -> Option<Seq<char>> {
    if !backslashes {
        final_component(path)
    } else if is_unusual(path) {
        unusual_name(path)
    } else {
        windows_component(path)
    }
}

/// Is this a name that stands for a file in a directory, on a platform where backslashes separate
/// components?
pub open spec fn is_bare(path: Seq<char>, name: Seq<char>) -> bool {
    &&& name.len() > 0
    &&& name != seq!['.']
    &&& name != seq!['.', '.']
    &&& forall|i: int| 0 <= i < name.len() ==> name[i] != '\\'
    &&& is_verbatim(path) || forall|i: int| 0 <= i < name.len() ==> name[i] != '/'
}

/// Is this the file name that the path ends in? It is the last component where slashes separate
/// components, or the last one where backslashes do so too: the platform decides which, and a
/// portable path means the same on both.
pub open spec fn names_the_file(path: Seq<char>, name: Option<Seq<char>>) -> bool {
    &&& is_portable(path) ==> name == final_component(path)
    &&& name == file_name_in(false, path) || {
        &&& name == file_name_in(true, path)
        &&& is_unusual(path) ==> (name matches Some(n) ==> is_bare(path, n))
    }
}

/// Does the character separate components?
pub open spec fn parts_at(backslashes: bool, c: char) -> bool {
    c == '/' || (backslashes && c == '\\')
}

/// Where the first component of a path may begin: behind the share or the drive, and behind the
/// separator or the single dot that comes then.
pub open spec fn body_start(backslashes: bool, path: Seq<char>) -> int {
    let start = if backslashes {
        prefix_len(path)
    } else {
        0
    };
    if path.len() > start && (parts_at(backslashes, path[start]) || (path[start] == '.' && (
    path.len() == start + 1 || parts_at(backslashes, path[start + 1])))) {
        start + 1
    } else {
        start
    }
}

/// The path without the separators and single dots at its end, as far as they lie behind `start`.
pub open spec fn trimmed(backslashes: bool, path: Seq<char>, start: int) -> Seq<char>
    decreases path.len(),
{
    if path.len() == 0 || path.len() <= start {
        path
    } else if parts_at(backslashes, path.last()) || (path.last() == '.' && (path.len() == start + 1
        || parts_at(backslashes, path[path.len() - 2]))) {
        trimmed(backslashes, path.drop_last(), start)
    } else {
        path
    }
}

/// The path without what follows its last separator, as far as that lies behind `start`.
pub open spec fn without_last(backslashes: bool, path: Seq<char>, start: int) -> Seq<char>
    decreases path.len(),
{
    if path.len() == 0 || path.len() <= start || parts_at(backslashes, path.last()) {
        path
    } else {
        without_last(backslashes, path.drop_last(), start)
    }
}

/// The directory that the file of a path lies in.
pub open spec fn parent_text(backslashes: bool, path: Seq<char>) -> Seq<char> {
    let start = body_start(backslashes, path);
    trimmed(
        backslashes,
        without_last(backslashes, trimmed(backslashes, path, start), start),
        start,
    )
}

/// A directory with a component behind it. Between them stands the platform's separator, but none
/// behind an empty directory or a separator, nor behind a drive; and a component that begins with a
/// drive stands alone on Windows.
pub open spec fn joined_text(backslashes: bool, dir: Seq<char>, name: Seq<char>) -> Seq<char> {
    if backslashes && has_drive(name) {
        name
    } else if dir.len() == 0 || parts_at(backslashes, dir.last()) || (backslashes && dir.len() == 2
        && has_drive(dir)) {
        dir + name
    } else if backslashes {
        dir.push('\\') + name
    } else {
        dir.push('/') + name
    }
}

/// The path with another file name; a path that ends in no file name gets it behind its end.
pub open spec fn beside(backslashes: bool, path: Seq<char>, name: Seq<char>) -> Seq<char> {
    joined_text(
        backslashes,
        if file_name_in(backslashes, path) is Some {
            parent_text(backslashes, path)
        } else {
            path
        },
        name,
    )
}

#[verifier::external_type_specification]
#[verifier::external_body]
pub struct ExPathBuf(std::path::PathBuf);

/// What a path holds: its text.
pub uninterp spec fn path_text(path: std::path::PathBuf) -> Seq<char>;

/// Does a backslash separate the components that a path holds, as a slash does? It does so in the
/// paths of a program for Windows; in those of other programs it is a character like others.
pub uninterp spec fn path_backslashes(path: std::path::PathBuf) -> bool;

/// `std::path::PathBuf::from`: the path with this text.
#[verifier::external_body]
fn path_from(text: &str) -> (r: std::path::PathBuf)
    ensures
        path_text(r) == text@,
{
    std::path::PathBuf::from(text)
}

/// `std::path::Path::to_string_lossy`: the text of the path.
#[verifier::external_body]
fn path_to_text(path: &std::path::PathBuf) -> (r: String)
    ensures
        r@ == path_text(*path),
{
    path.to_string_lossy().into_owned()
}

/// `std::path::Path::file_name`: the last component of the path, none where there is no component
/// or where it is `..`. Components are separated by slashes, on Windows also by backslashes, behind
/// the share or the drive that a path may begin with there; empty ones and single dots do not
/// count. What Windows finds in a path that begins with two separators and no share is given a
/// name; it is one component.
#[verifier::external_body]
fn path_file_name(path: &std::path::PathBuf) -> (r: Option<String>)
    ensures
        path_backslashes(*path) && is_unusual(path_text(*path)) ==> {
            &&& text::opt_text(r) == unusual_name(path_text(*path))
            &&& r matches Some(n) ==> is_bare(path_text(*path), n@)
        },
        !(path_backslashes(*path) && is_unusual(path_text(*path))) ==> text::opt_text(r)
            == file_name_in(path_backslashes(*path), path_text(*path)),
{
    path.file_name().map(|v| v.to_string_lossy().into_owned())
}

/// `std::path::Path::with_file_name`: the path with another file name. As the file name goes, so do
/// the separators and single dots around it; a path without a file name gets the name behind its
/// end. Claimed of names that are one component, but on Windows of no path that begins with two
/// separators and no share.
#[verifier::external_body]
fn path_with_file_name(path: &std::path::PathBuf, name: &str) -> (r: std::path::PathBuf)
    ensures
        path_backslashes(r) == path_backslashes(*path),
        !(path_backslashes(*path) && is_unusual(path_text(*path))) && (forall|i: int|
            0 <= i < name@.len() ==> !parts_at(path_backslashes(*path), #[trigger] name@[i]))
            ==> path_text(r) == beside(path_backslashes(*path), path_text(*path), name@),
{
    path.with_file_name(name)
}

/// The place of a file.
pub struct FilePath {
    path: std::path::PathBuf,
}

/// A place of a file: its text, and whether backslashes separate the components of it.
pub struct FilePathView {
    pub text: Seq<char>,
    pub backslashes: bool,
}

impl View for FilePath {
    type V = FilePathView;

    closed spec fn view(&self) -> FilePathView {
        FilePathView {
            text: path_text(self.path),
            backslashes: path_backslashes(self.path),
        }
    }
}

impl FilePathView {
    /// The file name that the path ends in.
    pub open spec fn file_name(self) -> Option<Seq<char>> {
        file_name_in(self.backslashes, self.text)
    }

    /// Is the file name one component, whatever the path begins with?
    pub open spec fn is_sound(self) -> bool {
        self.is_unusual() ==> (self.file_name() matches Some(n) ==> is_bare(self.text, n))
    }

    /// Does the path begin, on Windows, with two separators and no share?
    pub open spec fn is_unusual(self) -> bool {
        self.backslashes && is_unusual(self.text)
    }

    /// The path with another file name.
    pub open spec fn with_file_name(self, name: Seq<char>) -> Self {
        FilePathView { text: beside(self.backslashes, self.text, name), ..self }
    }
}

impl FilePath {
    /// The path with this text. The platform decides whether backslashes separate its components.
    pub fn new(text: &str) -> (r: Self)
        ensures
            r@.text == text@,
    {
        FilePath { path: path_from(text) }
    }

    pub fn to_text(&self) -> (r: String)
        ensures
            r@ == self@.text,
    {
        path_to_text(&self.path)
    }

    /// The file name that the path ends in.
    pub fn file_name(&self) -> (r: Option<String>)
        ensures
            text::opt_text(r) == self@.file_name(),
            names_the_file(self@.text, text::opt_text(r)),
            self@.is_sound(),
    {
        proof {
            if is_portable(self@.text) {
                lemma_portable(self@.text);
            }
        }
        path_file_name(&self.path)
    }

    /// The path with another file name. Not told of paths that begin, on Windows, with two
    /// separators and no share.
    pub fn with_file_name(&self, name: &str) -> (r: Self)
        ensures
            r@.backslashes == self@.backslashes,
            !self@.is_unusual() && (forall|i: int|
                0 <= i < name@.len() ==> !parts_at(self@.backslashes, #[trigger] name@[i])) ==> r@
                == self@.with_file_name(name@),
    {
        FilePath { path: path_with_file_name(&self.path, name) }
    }
}

/// The file name that the path with this text ends in.
pub(crate) fn file_name(path: &str) -> (r: Option<String>)
    ensures
        names_the_file(path@, text::opt_text(r)),
{
    FilePath::new(path).file_name()
}

/// A file name is one component.
pub proof fn lemma_file_name_is_a_component(backslashes: bool, path: Seq<char>)
    requires
        file_name_in(backslashes, path) is Some,
        !(backslashes && is_unusual(path)),
    ensures
        is_component(backslashes, file_name_in(backslashes, path)->0),
{
    if backslashes {
        let rest = slashed(path.skip(prefix_len(path)));
        lemma_final_component(rest);
        assert(!rest.contains('\\'));
    } else {
        lemma_final_component(path);
    }
}

/// A portable path has the same file name on every platform.
pub proof fn lemma_portable(path: Seq<char>)
    requires
        is_portable(path),
    ensures
        !begins_doubly(path),
        file_name_in(true, path) == final_component(path),
{
    assert(path.len() >= 1 ==> path[0] != '\\');
    assert(path.len() >= 2 ==> path[1] != ':' && path[1] != '\\');
    assert(path.skip(0) == path);
    assert(slashed(path) =~= path);
}

/// Is `r` the directory with the name behind it? Between them stands the platform's separator, but
/// none behind an empty directory or a separator, nor behind a drive.
pub open spec fn is_joined(r: Seq<char>, dir: Seq<char>, name: Seq<char>) -> bool {
    if dir.len() == 0 || dir.last() == '/' {
        r == dir + name
    } else if dir.last() == '\\' {
        r == dir + name || r == dir.push('/') + name
    } else if dir.last() == ':' {
        r == dir + name || r == dir.push('/') + name || r == dir.push('\\') + name
    } else {
        r == dir.push('/') + name || r == dir.push('\\') + name
    }
}

/// A name that is relative on every platform: it begins with no separator and no drive.
pub open spec fn is_relative(name: Seq<char>) -> bool {
    &&& !(name.len() > 0 && is_separator(name[0]))
    &&& !has_drive(name)
}

/// Is `r` where the name leads from the directory? A relative name stands behind the directory. One
/// that begins with a slash replaces it, but for the drive or the share that it may begin with on
/// Windows; one that begins with a backslash does so too, or it is relative; and one with a drive
/// replaces it whole, or it is relative.
pub open spec fn leads_from(r: Seq<char>, dir: Seq<char>, name: Seq<char>) -> bool {
    if is_relative(name) {
        is_joined(r, dir, name)
    } else if has_drive(name) {
        r == name || is_joined(r, dir, name)
    } else {
        ||| r == name
        ||| has_drive(dir) && r == dir.take(2) + name
        ||| begins_doubly(dir) && exists|k: int| 0 <= k <= dir.len() && r == #[trigger] dir.take(k)
            + name
        ||| name[0] == '\\' && is_joined(r, dir, name)
    }
}

/// `std::path::Path::join`: the directory with the name behind it, unless the name is absolute.
/// Claimed of directories that Windows does not take verbatim: behind those it would leave out the
/// components that are dots.
#[verifier::external_body]
pub(crate) fn join(dir: &str, name: &str) -> (r: String)
    ensures
        !is_verbatim(dir@) ==> leads_from(r@, dir@, name@),
{
    std::path::Path::new(dir).join(name).to_string_lossy().into_owned()
}

/// A directory with a plain name behind it is verbatim only where the directory is.
pub proof fn lemma_joined_is_not_verbatim(r: Seq<char>, dir: Seq<char>, name: Seq<char>)
    requires
        is_joined(r, dir, name),
        is_plain_name(name),
        name[0] != '?',
        !is_verbatim(dir),
    ensures
        !is_verbatim(r),
{
    assert(dir.len() >= 1 ==> r[0] == dir[0]);
    assert(dir.len() >= 2 ==> r[1] == dir[1]);
    assert(dir.len() >= 3 ==> r[2] == dir[2]);
}

proof fn lemma_split_push(s: Seq<char>, c: char, sep: char)
    ensures
        text::split_pieces(s, sep).len() > 0,
        c == sep ==> text::split_pieces(s.push(c), sep) == text::split_pieces(s, sep).push(
            Seq::<char>::empty(),
        ),
        c != sep ==> text::split_pieces(s.push(c), sep) == text::split_pieces(s, sep).drop_last().push(
            text::split_pieces(s, sep).last().push(c),
        ),
    decreases s.len(),
{
    assert(s.push(c).drop_last() == s);
    if s.len() > 0 {
        lemma_split_push(s.drop_last(), s.last(), sep);
        assert(s.drop_last().push(s.last()) == s);
    }
    if c != sep {
        let before = text::split_pieces(s, sep);
        assert(before.update(before.len() - 1, before.last().push(c)) =~= before.drop_last().push(
            before.last().push(c),
        ));
    }
}

proof fn lemma_split_after(s: Seq<char>, file: Seq<char>, sep: char)
    requires
        forall|i: int| 0 <= i < file.len() ==> file[i] != sep,
    ensures
        text::split_pieces(s, sep).len() > 0,
        text::split_pieces(s + file, sep) == text::split_pieces(s, sep).drop_last().push(
            text::split_pieces(s, sep).last() + file,
        ),
    decreases file.len(),
{
    lemma_split_push(s, sep, sep);
    if file.len() == 0 {
        assert(s + file == s);
        assert(text::split_pieces(s, sep).last() + file == text::split_pieces(s, sep).last());
        assert(text::split_pieces(s, sep) =~= text::split_pieces(s, sep).drop_last().push(
            text::split_pieces(s, sep).last(),
        ));
    } else {
        let front = file.drop_last();
        lemma_split_after(s, front, sep);
        lemma_split_push(s + front, file.last(), sep);
        assert((s + front).push(file.last()) == s + file);
        let before = text::split_pieces(s, sep);
        assert((before.last() + front).push(file.last()) == before.last() + file);
        assert(before.drop_last().push(before.last() + front).drop_last() == before.drop_last());
    }
}

/// A plain name is its own file name.
pub proof fn lemma_plain_name_is_final(file: Seq<char>)
    requires
        is_plain_name(file),
    ensures
        is_portable(file),
        final_component(file) == Some(file),
{
    let none = Seq::<char>::empty();
    lemma_split_after(none, file, '/');
    assert(none + file == file);
    assert(text::split_pieces(none, '/') == seq![none]);
    let before = Seq::<Seq<char>>::empty();
    assert(seq![none].drop_last() == before);
    assert(text::split_pieces(file, '/') == before.push(file));
    lemma_components_push(before, file);
}

proof fn lemma_components_push(before: Seq<Seq<char>>, file: Seq<char>)
    requires
        file.len() > 0,
        file != seq!['.'],
    ensures
        components(before.push(file)) == components(before).push(file),
{
    let p = |p: Seq<char>| p.len() > 0 && p != seq!['.'];
    reveal(Seq::filter);
    assert(before.push(file).drop_last() == before);
}

/// No piece between separators holds one.
proof fn lemma_pieces_hold_no_separator(s: Seq<char>, sep: char)
    ensures
        text::split_pieces(s, sep).len() > 0,
        forall|k: int, i: int|
            0 <= k < text::split_pieces(s, sep).len() && 0 <= i < text::split_pieces(
                s,
                sep,
            )[k].len() ==> #[trigger] text::split_pieces(s, sep)[k][i] != sep,
    decreases s.len(),
{
    if s.len() > 0 {
        lemma_pieces_hold_no_separator(s.drop_last(), sep);
    }
}

/// The last component between slashes holds none and is none of the names that stand for a
/// directory.
proof fn lemma_final_component(path: Seq<char>)
    requires
        final_component(path) is Some,
    ensures
        ({
            let last = final_component(path)->0;
            &&& last.len() > 0
            &&& last != seq!['.']
            &&& last != seq!['.', '.']
            &&& forall|i: int| 0 <= i < last.len() ==> last[i] != '/' && path.contains(last[i])
        }),
{
    let pieces = text::split_pieces(path, '/');
    let keep = |p: Seq<char>| p.len() > 0 && p != seq!['.'];
    lemma_pieces_hold_no_separator(path, '/');
    lemma_pieces_are_parts(path, '/');
    let parts = pieces.filter(keep);
    let last = parts.last();
    pieces.lemma_filter_contains_rev(keep, last);
    pieces.lemma_filter_pred(keep, parts.len() - 1);
    let k = choose|k: int| 0 <= k < pieces.len() && pieces[k] == last;
    assert forall|i: int| 0 <= i < last.len() implies last[i] != '/' && path.contains(last[i]) by {
        assert(pieces[k][i] != '/');
        assert(path.contains(pieces[k][i]));
    }
}

/// The file name of a portable path is one component on every platform.
pub proof fn file_name_stays_in_its_directory(path: Seq<char>)
    requires
        is_portable(path),
        final_component(path) is Some,
    ensures
        is_plain_name(final_component(path)->0),
{
    lemma_final_component(path);
    let last = final_component(path)->0;
    assert forall|i: int| 0 <= i < last.len() implies last[i] != '/' && last[i] != '\\' && last[i]
        != ':' by {
        assert(path.contains(last[i]));
    }
}

/// The file name of a path is one component: it is not empty, stands for no directory and holds no
/// slash, and it holds no backslash unless only slashes separate components.
pub proof fn lemma_named_file_is_one_component(path: Seq<char>, name: Option<Seq<char>>)
    requires
        names_the_file(path, name),
        name is Some,
        !is_verbatim(path),
    ensures
        name->0.len() > 0,
        name->0 != seq!['.'],
        name->0 != seq!['.', '.'],
        !name->0.contains('/'),
        name == final_component(path) || !name->0.contains('\\'),
        is_portable(path) ==> is_plain_name(name->0),
{
    if is_portable(path) {
        file_name_stays_in_its_directory(path);
    }
    if name == final_component(path) {
        lemma_final_component(path);
    } else if !is_unusual(path) {
        let rest = slashed(path.skip(prefix_len(path)));
        lemma_final_component(rest);
        assert(!rest.contains('\\'));
    }
}

/// A name that is one component: it is not empty, stands for no directory and holds no separator.
pub open spec fn is_component(backslashes: bool, name: Seq<char>) -> bool {
    &&& name.len() > 0
    &&& name != seq!['.']
    &&& name != seq!['.', '.']
    &&& forall|i: int| 0 <= i < name.len() ==> !parts_at(backslashes, #[trigger] name[i])
}

proof fn lemma_component_is_final(front: Seq<char>, file: Seq<char>)
    requires
        is_component(false, file),
        front.len() == 0 || front.last() == '/',
    ensures
        final_component(front + file) == Some(file),
{
    assert(forall|i: int| 0 <= i < file.len() ==> !parts_at(false, #[trigger] file[i]));
    lemma_split_after(front, file, '/');
    let before = text::split_pieces(front, '/');
    if front.len() > 0 {
        lemma_split_push(front.drop_last(), '/', '/');
        assert(front.drop_last().push('/') == front);
    }
    assert(before.last() + file == file);
    lemma_components_push(before.drop_last(), file);
}

/// A component is its own file name, unless it begins with a drive on Windows.
pub proof fn lemma_component_is_its_own_name(backslashes: bool, name: Seq<char>)
    requires
        is_component(backslashes, name),
        !(backslashes && has_drive(name)),
    ensures
        file_name_in(backslashes, name) == Some(name),
{
    let none = Seq::<char>::empty();
    assert(forall|i: int| 0 <= i < name.len() ==> !parts_at(backslashes, #[trigger] name[i]));
    assert(none + name == name);
    assert(is_component(false, name));
    lemma_component_is_final(none, name);
    if backslashes {
        assert(!begins_doubly(name)) by {
            assert(!parts_at(true, name[0]));
        }
        assert(name.skip(0) == name);
        assert(slashed(name) =~= name);
    }
}

proof fn lemma_without_last(backslashes: bool, front: Seq<char>, file: Seq<char>, start: int)
    requires
        0 <= start <= front.len(),
        front.len() == start || parts_at(backslashes, front.last()),
        forall|i: int| 0 <= i < file.len() ==> !parts_at(backslashes, #[trigger] file[i]),
    ensures
        without_last(backslashes, front + file, start) == front,
    decreases file.len(),
{
    if file.len() == 0 {
        assert(front + file == front);
    } else {
        let path = front + file;
        assert(path.last() == file[file.len() - 1]);
        assert(path.drop_last() == front + file.drop_last());
        lemma_without_last(backslashes, front, file.drop_last(), start);
    }
}

proof fn lemma_trimmed_keeps_the_name(
    backslashes: bool,
    front: Seq<char>,
    file: Seq<char>,
    start: int,
)
    requires
        0 <= start <= front.len(),
        is_component(backslashes, file),
    ensures
        trimmed(backslashes, front + file, start) == front + file,
{
    let path = front + file;
    let n = file.len() as int;
    assert(path.last() == file[n - 1]);
    if n == 1 {
        assert(file[0] != '.') by {
            if file[0] == '.' {
                assert(file =~= seq!['.']);
            }
        }
    } else {
        assert(path[path.len() - 2] == file[n - 2]);
    }
}

/// The file at a path lies in what stands before its name, and goes by that name. What stands
/// before it may end in separators and single dots, which do not count.
pub proof fn a_file_lies_in_its_directory(backslashes: bool, front: Seq<char>, file: Seq<char>)
    requires
        is_component(backslashes, file),
        body_start(backslashes, front + file) <= front.len(),
        front.len() == body_start(backslashes, front + file) || parts_at(
            backslashes,
            front.last(),
        ),
        !(backslashes && is_unusual(front + file)),
    ensures
        file_name_in(backslashes, front + file) == Some(file),
        parent_text(backslashes, front + file) == trimmed(
            backslashes,
            front,
            body_start(backslashes, front + file),
        ),
{
    let path = front + file;
    let start = body_start(backslashes, path);
    assert(forall|i: int| 0 <= i < file.len() ==> !parts_at(backslashes, #[trigger] file[i]));
    lemma_trimmed_keeps_the_name(backslashes, front, file, start);
    lemma_without_last(backslashes, front, file, start);
    let prefix = if backslashes {
        prefix_len(path)
    } else {
        0
    };
    assert(0 <= prefix <= start);
    let between = front.skip(prefix);
    assert(path.skip(prefix) == between + file);
    assert(between.len() == 0 || parts_at(backslashes, between.last())) by {
        if front.len() == start && start > prefix {
            assert(path[start - 1] == front.last());
            if !parts_at(backslashes, path[prefix]) {
                assert(path[start] == file[0]);
            }
        }
    }
    assert(is_component(false, file));
    if backslashes {
        assert(slashed(path.skip(prefix)) =~= slashed(between) + file);
        lemma_component_is_final(slashed(between), file);
    } else {
        assert(path.skip(0) == path);
        lemma_component_is_final(between, file);
    }
}

proof fn lemma_pieces_are_parts(s: Seq<char>, sep: char)
    ensures
        text::split_pieces(s, sep).len() > 0,
        forall|k: int, i: int|
            0 <= k < text::split_pieces(s, sep).len() && 0 <= i < text::split_pieces(
                s,
                sep,
            )[k].len() ==> s.contains(#[trigger] text::split_pieces(s, sep)[k][i]),
    decreases s.len(),
{
    if s.len() > 0 {
        let front = s.drop_last();
        lemma_pieces_are_parts(front, sep);
        let pieces = text::split_pieces(s, sep);
        let before = text::split_pieces(front, sep);
        assert forall|k: int, i: int|
            0 <= k < pieces.len() && 0 <= i < pieces[k].len() implies s.contains(
            #[trigger] pieces[k][i],
        ) by {
            if s.last() != sep && k == before.len() - 1 && i == before[k].len() {
                assert(s[s.len() - 1] == pieces[k][i]);
            } else {
                assert(pieces[k][i] == before[k][i]);
                let j = front.index_of(before[k][i]);
                assert(s[j] == pieces[k][i]);
            }
        }
    }
}

}
