//! Plugin metadata: the header comments of a plugin script, and the checks a
//! plugin has to pass before it is loaded.
use vstd::prelude::*;

use crate::service::{is_newer_version, semver_newer, semver_valid, version_text};
use crate::text::{chars_of, find_between, first_index, first_index_from, is_ws, same_text, starts_with, trim, trim_bounds, trim_end, trim_start};

verus! {

broadcast use vstd::string::group_string_axioms;

/// What a plugin declares about itself in its header comments.
pub struct PluginMeta {
    pub name: String,
    pub version: String,
    pub author: String,
    pub description: String,
    pub requirement: String,
}

/// The fields of a `PluginMeta`, as character sequences.
pub struct MetaView {
    pub name: Seq<char>,
    pub version: Seq<char>,
    pub author: Seq<char>,
    pub description: Seq<char>,
    pub requirement: Seq<char>,
}

impl View for PluginMeta {
    type V = MetaView;

    open spec fn view(&self) -> MetaView {
        MetaView {
            name: self.name@,
            version: self.version@,
            author: self.author@,
            description: self.description@,
            requirement: self.requirement@,
        }
    }
}

/// Metadata with every field empty.
pub open spec fn empty_meta() -> MetaView {
    MetaView {
        name: Seq::empty(),
        version: Seq::empty(),
        author: Seq::empty(),
        description: Seq::empty(),
        requirement: Seq::empty(),
    }
}

impl Default for PluginMeta {
    fn default() -> (r: Self)
        ensures
            r@ == empty_meta(),
    {
        PluginMeta {
            name: String::new(),
            version: String::new(),
            author: String::new(),
            description: String::new(),
            requirement: String::new(),
        }
    }
}

/// `meta` after a header line declared `tag` with `value`; unknown tags change nothing.
pub open spec fn with_tag(meta: MetaView, tag: Seq<char>, value: Seq<char>) -> MetaView {
    if tag == "@name"@ {
        MetaView { name: value, ..meta }
    } else if tag == "@version"@ {
        MetaView { version: value, ..meta }
    } else if tag == "@author"@ {
        MetaView { author: value, ..meta }
    } else if tag == "@description"@ {
        MetaView { description: value, ..meta }
    } else if tag == "@requirement"@ {
        MetaView { requirement: value, ..meta }
    } else {
        meta
    }
}

/// `meta` after one trimmed comment line: the tag runs from the first `@` to the
/// first space after it, and the value is the rest of the line, trimmed.
pub open spec fn with_line(meta: MetaView, line: Seq<char>) -> MetaView {
    match first_index(line, '@') {
        None => meta,
        Some(a) => {
            let rest = line.skip(a);
            match first_index(rest, ' ') {
                None => meta,
                Some(b) => with_tag(meta, rest.take(b), trim(rest.skip(b + 1))),
            }
        },
    }
}

/// `meta` after reading the lines of `text` (separated by `'\n'`): blank lines are
/// skipped, lines starting with `--` are read, and the first other line ends the header.
pub open spec fn scan_header(meta: MetaView, text: Seq<char>) -> MetaView
    decreases text.len(),
{
    match first_index(text, '\n') {
        Some(i) if 0 <= i < text.len() => {
            let t = trim(text.take(i));
            if t.len() == 0 {
                scan_header(meta, text.skip(i + 1))
            } else if !starts_with(t, "--"@) {
                meta
            } else {
                scan_header(with_line(meta, t), text.skip(i + 1))
            }
        },
        _ => {
            let t = trim(text);
            if t.len() == 0 || !starts_with(t, "--"@) {
                meta
            } else {
                with_line(meta, t)
            }
        },
    }
}

/// The metadata that the header of the script `code` declares.
pub open spec fn header_meta(code: Seq<char>) -> MetaView {
    scan_header(empty_meta(), code)
}

proof fn lemma_index_absent(s: Seq<char>, c: char, from: int)
    requires
        forall|j: int| 0 <= j < s.len() ==> s[j] != c,
    ensures
        first_index_from(s, c, from) is None,
    decreases s.len() - from,
{
    if 0 <= from < s.len() {
        lemma_index_absent(s, c, from + 1);
    }
}

proof fn lemma_index_at(s: Seq<char>, c: char, from: int, k: int)
    requires
        0 <= from <= k < s.len(),
        s[k] == c,
        forall|j: int| from <= j < k ==> s[j] != c,
    ensures
        first_index_from(s, c, from) == Some(k),
    decreases k - from,
{
    if from < k {
        lemma_index_at(s, c, from + 1, k);
    }
}

proof fn lemma_trim_start_without(s: Seq<char>, c: char)
    requires
        forall|j: int| 0 <= j < s.len() ==> s[j] != c,
    ensures
        forall|j: int| 0 <= j < trim_start(s).len() ==> trim_start(s)[j] != c,
    decreases s.len(),
{
    if s.len() > 0 && is_ws(s[0]) {
        assert forall|j: int| 0 <= j < s.drop_first().len() implies s.drop_first()[j] != c by {
            assert(s.drop_first()[j] == s[j + 1]);
        }
        lemma_trim_start_without(s.drop_first(), c);
        assert(trim_start(s) == trim_start(s.drop_first()));
    } else {
        assert(trim_start(s) == s);
    }
}

proof fn lemma_trim_end_without(s: Seq<char>, c: char)
    requires
        forall|j: int| 0 <= j < s.len() ==> s[j] != c,
    ensures
        forall|j: int| 0 <= j < trim_end(s).len() ==> trim_end(s)[j] != c,
    decreases s.len(),
{
    if s.len() > 0 && is_ws(s.last()) {
        lemma_trim_end_without(s.drop_last(), c);
        assert(trim_end(s) == trim_end(s.drop_last()));
    } else {
        assert(trim_end(s) == s);
    }
}

/// A comment line without a tag neither sets a field nor ends the header: where
/// `line` holds no line break and no `@`, and starts with `--` once trimmed, the
/// header of `line`, a line break and `rest` is the header of `rest`.
pub proof fn law_untagged_comment_skipped(line: Seq<char>, rest: Seq<char>)
    requires
        forall|j: int| 0 <= j < line.len() ==> line[j] != '\n' && line[j] != '@',
        starts_with(trim(line), "--"@),
    ensures
        header_meta(line + seq!['\n'] + rest) == header_meta(rest),
{
    let text = line + seq!['\n'] + rest;
    let i = line.len() as int;
    assert(text[i] == '\n');
    assert forall|j: int| 0 <= j < i implies text[j] != '\n' by {
        assert(text[j] == line[j]);
    }
    lemma_index_at(text, '\n', 0, i);
    assert(text.take(i) =~= line);
    assert(text.skip(i + 1) =~= rest);
    reveal_strlit("--");
    let t = trim(line);
    assert(t.len() >= 2);
    lemma_trim_start_without(line, '@');
    lemma_trim_end_without(trim_start(line), '@');
    lemma_index_absent(t, '@', 0);
    assert(with_line(empty_meta(), t) == empty_meta());
}

/// A blank line in the header is skipped.
pub proof fn law_blank_line_skipped(line: Seq<char>, rest: Seq<char>)
    requires
        forall|j: int| 0 <= j < line.len() ==> is_ws(line[j]) && line[j] != '\n',
    ensures
        header_meta(line + seq!['\n'] + rest) == header_meta(rest),
{
    let text = line + seq!['\n'] + rest;
    let i = line.len() as int;
    assert(text[i] == '\n');
    assert forall|j: int| 0 <= j < i implies text[j] != '\n' by {
        assert(text[j] == line[j]);
    }
    lemma_index_at(text, '\n', 0, i);
    assert(text.take(i) =~= line);
    assert(text.skip(i + 1) =~= rest);
    lemma_trim_start_blank(line);
    assert(trim(line).len() == 0);
}

proof fn lemma_trim_start_blank(s: Seq<char>)
    requires
        forall|j: int| 0 <= j < s.len() ==> is_ws(s[j]),
    ensures
        trim_start(s).len() == 0,
    decreases s.len(),
{
    if s.len() > 0 {
        assert forall|j: int| 0 <= j < s.drop_first().len() implies is_ws(s.drop_first()[j]) by {
            assert(s.drop_first()[j] == s[j + 1]);
        }
        lemma_trim_start_blank(s.drop_first());
    }
}

/// A line that is neither blank nor a `--` comment ends the header: a script
/// that begins with such a line declares nothing, whatever follows.
pub proof fn law_code_line_ends_header(line: Seq<char>, rest: Seq<char>)
    requires
        forall|j: int| 0 <= j < line.len() ==> line[j] != '\n',
        trim(line).len() > 0,
        !starts_with(trim(line), "--"@),
    ensures
        header_meta(line + seq!['\n'] + rest) == empty_meta(),
{
    let text = line + seq!['\n'] + rest;
    let i = line.len() as int;
    assert(text[i] == '\n');
    assert forall|j: int| 0 <= j < i implies text[j] != '\n' by {
        assert(text[j] == line[j]);
    }
    lemma_index_at(text, '\n', 0, i);
    assert(text.take(i) =~= line);
}

/// Decides whether `s[from..to]` equals `lit`.
fn range_equals(s: &Vec<char>, from: usize, to: usize, lit: &Vec<char>) -> (r: bool)
    requires
        from <= to <= s.len(),
    ensures
        r == (s@.subrange(from as int, to as int) == lit@),
{
    if to - from != lit.len() {
        return false;
    }
    let mut k: usize = 0;
    while k < lit.len()
        invariant
            to - from == lit.len(),
            from <= to <= s.len(),
            k <= lit.len(),
            forall|m: int| 0 <= m < k ==> s@[from + m] == lit@[m],
        decreases lit.len() - k,
    {
        if s[from + k] != lit[k] {
            assert(s@.subrange(from as int, to as int)[k as int] != lit@[k as int]);
            return false;
        }
        k = k + 1;
    }
    assert(s@.subrange(from as int, to as int) =~= lit@);
    true
}

/// The five tags a header may declare, as character vectors.
struct Tags {
    name: Vec<char>,
    version: Vec<char>,
    author: Vec<char>,
    description: Vec<char>,
    requirement: Vec<char>,
}

impl Tags {
    spec fn wf(&self) -> bool {
        &&& self.name@ == "@name"@
        &&& self.version@ == "@version"@
        &&& self.author@ == "@author"@
        &&& self.description@ == "@description"@
        &&& self.requirement@ == "@requirement"@
    }

    fn new() -> (r: Self)
        ensures
            r.wf(),
    {
        Tags {
            name: chars_of("@name"),
            version: chars_of("@version"),
            author: chars_of("@author"),
            description: chars_of("@description"),
            requirement: chars_of("@requirement"),
        }
    }
}

/// Applies the trimmed comment line `chars[from..to]` of `code` to `meta`.
fn apply_line(meta: &mut PluginMeta, code: &str, chars: &Vec<char>, tags: &Tags, from: usize, to: usize)
    requires
        chars@ == code@,
        tags.wf(),
        from <= to <= chars.len(),
    ensures
        final(meta)@ == with_line(old(meta)@, chars@.subrange(from as int, to as int)),
{
    let ghost line = chars@.subrange(from as int, to as int);
    match find_between(chars, '@', from, to) {
        None => {},
        Some(a) => {
            let ghost rest = line.skip(a - from);
            assert(rest =~= chars@.subrange(a as int, to as int));
            match find_between(chars, ' ', a, to) {
                None => {},
                Some(b) => {
                    let ghost bb = b - a;
                    assert(rest.take(bb) =~= chars@.subrange(a as int, b as int));
                    assert(rest.skip(bb + 1) =~= chars@.subrange(b + 1, to as int));
                    let (vs, ve) = trim_bounds(chars, b + 1, to);
                    let value = String::from_str(code.substring_char(vs, ve));
                    assert(value@ == trim(rest.skip(bb + 1)));
                    if range_equals(chars, a, b, &tags.name) {
                        meta.name = value;
                    } else if range_equals(chars, a, b, &tags.version) {
                        meta.version = value;
                    } else if range_equals(chars, a, b, &tags.author) {
                        meta.author = value;
                    } else if range_equals(chars, a, b, &tags.description) {
                        meta.description = value;
                    } else if range_equals(chars, a, b, &tags.requirement) {
                        meta.requirement = value;
                    }
                },
            }
        },
    }
}

/// Reads the metadata that the header comments of the plugin script `code` declare.
///
/// The header is the run of lines before the first line that is neither blank nor a
/// `--` comment. In it, a comment of the form `-- @tag value` sets the field that
/// `tag` names (`name`, `version`, `author`, `description`, `requirement`); a later
/// line overrides an earlier one.
pub fn load_meta(code: &str) -> (meta: PluginMeta)
    ensures
        meta@ == header_meta(code@),
{
    let chars = chars_of(code);
    let tags = Tags::new();
    let dashes = chars_of("--");
    let mut meta = PluginMeta::default();
    let mut pos: usize = 0;
    assert(chars@.skip(0) =~= chars@);
    loop
        invariant
            chars@ == code@,
            tags.wf(),
            dashes@ == "--"@,
            pos <= chars.len(),
            header_meta(code@) == scan_header(meta@, chars@.skip(pos as int)),
        ensures
            meta@ == header_meta(code@),
        decreases chars.len() - pos,
    {
        let ghost text = chars@.skip(pos as int);
        let ghost before = meta@;
        let found = find_between(&chars, '\n', pos, chars.len());
        let end = match found {
            Some(i) => i,
            None => chars.len(),
        };
        proof {
            assert(chars@.subrange(pos as int, chars.len() as int) =~= text);
            if let Some(i) = found {
                assert(text.take(i - pos) =~= chars@.subrange(pos as int, i as int));
                assert(text.skip(i - pos + 1) =~= chars@.skip(i + 1));
            } else {
                assert(text =~= chars@.subrange(pos as int, chars.len() as int));
            }
        }
        let (ts, te) = trim_bounds(&chars, pos, end);
        let ghost t = chars@.subrange(ts as int, te as int);
        if ts == te {
            if found.is_none() {
                break;
            }
        } else {
            let is_comment = te - ts >= 2 && range_equals(&chars, ts, ts + 2, &dashes);
            proof {
                reveal_strlit("--");
                if te - ts >= 2 {
                    assert(t.subrange(0, 2) =~= chars@.subrange(ts as int, ts + 2));
                }
            }
            if !is_comment {
                break;
            }
            apply_line(&mut meta, code, &chars, &tags, ts, te);
            if found.is_none() {
                break;
            }
        }
        pos = end + 1;
    }
    meta
}

/// Why a plugin is refused.
#[derive(PartialEq, Eq, Structural, Clone, Copy, Debug)]
pub enum LoadError {
    /// The header declares no required version.
    MissingRequirement,
    /// The header requires a version newer than this program.
    UnsupportedRequirement,
}

/// Whether a plugin that requires `requirement` is refused, and why.
pub open spec fn requirement_check(requirement: Seq<char>) -> Result<(), LoadError> {
    if requirement.len() == 0 {
        Err(LoadError::MissingRequirement)
    } else if semver_valid(requirement) && semver_valid(version_text()) && semver_newer(
        requirement,
        version_text(),
    ) {
        Err(LoadError::UnsupportedRequirement)
    } else {
        Ok(())
    }
}

/// Checks the version that a plugin requires: it must declare one, and it must
/// not be newer than this program.
pub fn check_requirement(meta: &PluginMeta) -> (r: Result<(), LoadError>)
    ensures
        r == requirement_check(meta.requirement@),
{
    if meta.requirement.as_str().unicode_len() == 0 {
        return Err(LoadError::MissingRequirement);
    }
    if is_newer_version(meta.requirement.as_str()) {
        return Err(LoadError::UnsupportedRequirement);
    }
    Ok(())
}

/// The index of the last `c` in `s` before `to`.
pub open spec fn last_index_before(s: Seq<char>, c: char, to: int) -> Option<int>
    decreases to,
{
    if to <= 0 || to > s.len() {
        None
    } else if s[to - 1] == c {
        Some(to - 1)
    } else {
        last_index_before(s, c, to - 1)
    }
}

/// The stem and extension of a file name, as `Path::file_stem` and
/// `Path::extension` split it: at the last `.`, unless that `.` begins the name
/// or the name is `..`.
pub open spec fn split_extension(file_name: Seq<char>) -> (Seq<char>, Option<Seq<char>>) {
    if file_name == ".."@ {
        (file_name, None)
    } else {
        match last_index_before(file_name, '.', file_name.len() as int) {
            Some(d) if d > 0 => (file_name.take(d), Some(file_name.skip(d + 1))),
            _ => (file_name, None),
        }
    }
}

/// The plugin that a file holds: the stem of its name, where its extension is `lua`.
pub open spec fn plugin_file_stem(file_name: Seq<char>) -> Option<Seq<char>> {
    let (stem, ext) = split_extension(file_name);
    if ext == Some("lua"@) {
        Some(stem)
    } else {
        None
    }
}

/// The name of the plugin in the file `file_name`, or `None` where the file is
/// not a Lua script.
pub fn plugin_name(file_name: &str) -> (r: Option<String>)
    ensures
        match r {
            Some(s) => plugin_file_stem(file_name@) == Some(s@),
            None => plugin_file_stem(file_name@) is None,
        },
{
    if same_text(file_name, "..") {
        return None;
    }
    let chars = chars_of(file_name);
    let mut j = chars.len();
    while j > 0 && chars[j - 1] != '.'
        invariant
            j <= chars.len(),
            chars@ == file_name@,
            last_index_before(chars@, '.', chars.len() as int) == last_index_before(
                chars@,
                '.',
                j as int,
            ),
        decreases j,
    {
        j = j - 1;
    }
    if j <= 1 {
        return None;
    }
    let d = j - 1;
    let ext = file_name.substring_char(d + 1, chars.len());
    if same_text(ext, "lua") {
        Some(String::from_str(file_name.substring_char(0, d)))
    } else {
        None
    }
}

} // verus!
