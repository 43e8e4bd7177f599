//! Reading the output of `git diff`, and telling which paths mean the same file.

use crate::text::{chars_of, ends_with, find_from, lines_of, range_matches, string_of_range};
use crate::text::{starts_with, strip_prefix, to_lowercase};
use vstd::prelude::*;

verus! {

/// A changed file.
#[derive(Debug)]
pub struct DiffPanelFile {
    pub path: String,
    pub added: usize,
    pub removed: usize,
    /// The unified diff; a binary or mode-only change has none.
    pub change: Option<String>,
}

/// The model of a changed file.
pub ghost struct DiffFileModel {
    pub path: Seq<char>,
    pub added: usize,
    pub removed: usize,
    pub change: Option<Seq<char>>,
}

impl DeepView for DiffPanelFile {
    type V = DiffFileModel;

    open spec fn deep_view(&self) -> Self::V {
        DiffFileModel {
            path: self.path@,
            added: self.added,
            removed: self.removed,
            change: self.change.deep_view(),
        }
    }
}

/// Whether a section of the diff begins at a place after the first character: a line there
/// names the next file.
pub open spec fn section_start(s: Seq<char>, i: int) -> bool {
    &&& 0 < i <= s.len()
    &&& s[i - 1] == '\n'
    &&& i + "diff --git "@.len() <= s.len()
    &&& s.subrange(i, i + "diff --git "@.len()) == "diff --git "@
}

/// The first place at or after `from` where the next section begins, or the length.
pub open spec fn next_section(s: Seq<char>, from: int) -> int
    decreases s.len() - from,
{
    if from >= s.len() {
        s.len() as int
    } else if section_start(s, from) {
        from
    } else {
        next_section(s, from + 1)
    }
}

/// The sections of a diff, one per file.
pub open spec fn sections(s: Seq<char>) -> Seq<Seq<char>>
    decreases s.len(),
{
    if s.len() == 0 {
        Seq::empty()
    } else {
        let e = next_section(s, 1);
        if 0 < e < s.len() {
            seq![s.subrange(0, e)] + sections(s.subrange(e, s.len() as int))
        } else {
            seq![s]
        }
    }
}

proof fn lemma_next_section(s: Seq<char>, from: int, e: int)
    requires
        0 <= from <= e <= s.len(),
        e < s.len() ==> section_start(s, e),
        forall|k: int| from <= k < e ==> !section_start(s, k),
    ensures
        next_section(s, from) == e,
    decreases e - from,
{
    if from < e {
        lemma_next_section(s, from + 1, e);
    }
}

/// The sections of a diff, one per file.
pub fn diff_sections(text: &str) -> (r: Vec<String>)
    ensures
        r.deep_view() == sections(text@),
{
    let v = chars_of(text);
    let marker = chars_of("diff --git ");
    let len: usize = v.len();
    let mut r: Vec<String> = Vec::new();
    let mut start: usize = 0;
    assert(v@.subrange(0, len as int) =~= v@);
    assert(r.deep_view() + sections(v@) =~= sections(v@));
    while start < len
        invariant
            v@ == text@,
            len == v@.len(),
            marker@ == "diff --git "@,
            start <= len,
            r.deep_view() + sections(v@.subrange(start as int, len as int)) == sections(v@),
        decreases len - start,
    {
        let ghost rest = v@.subrange(start as int, len as int);
        let mut end: usize = start + 1;
        while end < len && !(v[end - 1] == '\n' && marker.len() <= len - end && range_matches(
            &v,
            end,
            &marker,
        ))
            invariant
                len == v@.len(),
                marker@ == "diff --git "@,
                start < end <= len,
                rest == v@.subrange(start as int, len as int),
                forall|k: int| 1 <= k < end - start ==> !section_start(rest, k),
            ensures
                start < end <= len,
                forall|k: int| 1 <= k < end - start ==> !section_start(rest, k),
                end < len ==> v@[end - 1] == '\n' && end + marker@.len() <= len && v@.subrange(
                    end as int,
                    end + marker@.len(),
                ) == marker@,
            decreases len - end,
        {
            proof {
                let k = end - start;
                if section_start(rest, k) {
                    assert(rest[k - 1] == v@[end - 1]);
                    assert(rest.subrange(k, k + marker@.len()) =~= v@.subrange(
                        end as int,
                        end + marker@.len(),
                    ));
                }
            }
            end += 1;
        }
        proof {
            if end < len {
                let k = end - start;
                assert(rest[k - 1] == v@[end - 1]);
                assert(rest.subrange(k, k + marker@.len()) =~= v@.subrange(
                    end as int,
                    end + marker@.len(),
                ));
            }
            lemma_next_section(rest, 1, end - start);
        }
        let ghost before = r.deep_view();
        r.push(string_of_range(&v, start, end));
        proof {
            let piece = rest.subrange(0, end - start);
            assert(piece =~= v@.subrange(start as int, end as int));
            assert(r.deep_view() =~= before.push(piece));
            assert(rest.subrange(end - start, rest.len() as int) =~= v@.subrange(
                end as int,
                len as int,
            ));
            if end < len {
                assert(before + sections(rest) =~= r.deep_view() + sections(
                    v@.subrange(end as int, len as int),
                ));
            } else {
                assert(piece =~= rest);
                assert(sections(rest) == seq![rest]);
                assert(before + sections(rest) =~= r.deep_view() + Seq::<Seq<char>>::empty());
            }
        }
        start = end;
    }
    assert(v@.subrange(start as int, len as int) =~= Seq::empty());
    assert(r.deep_view() + Seq::<Seq<char>>::empty() =~= r.deep_view());
    r
}

/// The path to which the lines say the file was renamed.
pub open spec fn renamed_to(lines: Seq<Seq<char>>) -> Option<Seq<char>>
    decreases lines.len(),
{
    if lines.len() == 0 {
        None
    } else {
        match renamed_to(lines.drop_last()) {
            Some(path) => Some(path),
            None => if crate::text::has_prefix(lines.last(), "rename to "@) {
                Some(
                    lines.last().subrange("rename to "@.len() as int, lines.last().len() as int),
                )
            } else {
                None
            },
        }
    }
}

/// Whether a path is the null device of Windows, in upper or lower case.
pub open spec fn null_device(path: Seq<char>) -> bool {
    &&& path.len() == 3
    &&& path[0] == 'N' || path[0] == 'n'
    &&& path[1] == 'U' || path[1] == 'u'
    &&& path[2] == 'L' || path[2] == 'l'
}

/// The last one of some paths that is not the null device.
pub open spec fn last_real_path(paths: Seq<Seq<char>>) -> Option<Seq<char>>
    decreases paths.len(),
{
    if paths.len() == 0 {
        None
    } else if !null_device(paths.last()) {
        Some(paths.last())
    } else {
        last_real_path(paths.drop_last())
    }
}

/// The unified diff in a section: from the line on that begins with `--- `.
pub open spec fn unified_diff(section: Seq<char>) -> Option<Seq<char>> {
    if crate::text::has_prefix(section, "--- "@) {
        Some(section)
    } else {
        match crate::text::first_match(section, "\n--- "@, 0) {
            Some(at) => Some(section.subrange(at + 1, section.len() as int)),
            None => None,
        }
    }
}

/// The path of a section, where it has one.
pub open spec fn section_path(section: Seq<char>, extracted: Seq<Seq<char>>) -> Option<Seq<char>> {
    match renamed_to(crate::text::text_lines(section)) {
        Some(path) => Some(path),
        None => last_real_path(extracted),
    }
}

fn rename_target(section: &str) -> (r: Option<String>)
    ensures
        r.deep_view() == renamed_to(crate::text::text_lines(section@)),
{
    let lines = lines_of(section);
    let ghost all = lines.deep_view();
    let mut i: usize = 0;
    let mut found: Option<String> = None;
    while i < lines.len()
        invariant
            all == lines.deep_view(),
            i <= lines@.len(),
            found.deep_view() == renamed_to(all.take(i as int)),
        decreases lines@.len() - i,
    {
        proof {
            assert(all.take(i + 1).drop_last() =~= all.take(i as int));
            assert(all.take(i + 1).last() == lines@[i as int]@);
        }
        if found.is_none() {
            found = strip_prefix(lines[i].as_str(), "rename to ");
        }
        i += 1;
    }
    assert(all.take(i as int) =~= all);
    found
}

fn is_null_device(path: &str) -> (r: bool)
    ensures
        r == null_device(path@),
{
    let v = chars_of(path);
    v.len() == 3 && (v[0] == 'N' || v[0] == 'n') && (v[1] == 'U' || v[1] == 'u') && (v[2] == 'L'
        || v[2] == 'l')
}

/// The path and the unified diff of a section. `extracted` holds the paths that the headers of
/// the section name.
pub fn parse_section(section: &str, extracted: &Vec<String>) -> (r: Option<(String, Option<String>)>)
    ensures
        match r {
            Some((path, change)) => section_path(section@, extracted.deep_view()) == Some(path@)
                && change.deep_view() == unified_diff(section@),
            None => section_path(section@, extracted.deep_view()) is None,
        },
{
    let mut path = rename_target(section);
    if path.is_none() {
        let ghost all = extracted.deep_view();
        let mut i: usize = extracted.len();
        assert(all.take(i as int) =~= all);
        while i > 0 && path.is_none()
            invariant
                all == extracted.deep_view(),
                i <= extracted@.len(),
                path is None ==> last_real_path(all) == last_real_path(all.take(i as int)),
                path matches Some(p) ==> last_real_path(all) == Some(p@),
            decreases i,
        {
            proof {
                assert(all.take(i as int).drop_last() =~= all.take(i - 1));
                assert(all.take(i as int).last() == extracted@[i - 1]@);
            }
            if !is_null_device(extracted[i - 1].as_str()) {
                path = Some(extracted[i - 1].clone());
            }
            i -= 1;
        }
    }
    let path = match path {
        Some(path) => path,
        None => {
            return None;
        },
    };
    if starts_with(section, "--- ") {
        return Some((path, Some(section.to_owned())));
    }
    let v = chars_of(section);
    let marker = chars_of("\n--- ");
    let len: usize = v.len();
    proof {
        reveal_strlit("\n--- ");
    }
    match find_from(&v, &marker, 0) {
        Some(at) => Some((path, Some(string_of_range(&v, at + 1, len)))),
        None => Some((path, None)),
    }
}

/// The changed files of the first `n` sections.
pub open spec fn files_of(
    sections: Seq<Seq<char>>,
    extracted: Seq<Seq<Seq<char>>>,
    counts: Seq<(usize, usize)>,
    n: int,
) -> Seq<DiffFileModel>
    decreases n,
{
    if n <= 0 {
        Seq::empty()
    } else {
        let before = files_of(sections, extracted, counts, n - 1);
        match section_path(sections[n - 1], extracted[n - 1]) {
            None => before,
            Some(path) => {
                let change = unified_diff(sections[n - 1]);
                before.push(
                    DiffFileModel {
                        path,
                        added: if change is Some {
                            counts[n - 1].0
                        } else {
                            0
                        },
                        removed: if change is Some {
                            counts[n - 1].1
                        } else {
                            0
                        },
                        change,
                    },
                )
            },
        }
    }
}

/// The changed files of a diff. For each section, `extracted` holds the paths that its headers
/// name and `counts` how many lines its unified diff adds and removes.
pub fn parse_git_diff(
    text: &str,
    extracted: &Vec<Vec<String>>,
    counts: &Vec<(usize, usize)>,
) -> (files: Vec<DiffPanelFile>)
    requires
        extracted@.len() == sections(text@).len(),
        counts@.len() == sections(text@).len(),
    ensures
        files.deep_view() == files_of(
            sections(text@),
            extracted.deep_view(),
            counts@,
            sections(text@).len() as int,
        ),
{
    let parts = diff_sections(text);
    let mut files: Vec<DiffPanelFile> = Vec::new();
    let mut i: usize = 0;
    assert(parts@.len() == sections(text@).len());
    assert(files.deep_view() =~= Seq::empty());
    while i < parts.len()
        invariant
            i <= parts@.len(),
            parts.deep_view() == sections(text@),
            extracted@.len() == parts@.len(),
            counts@.len() == parts@.len(),
            files.deep_view() == files_of(
                sections(text@),
                extracted.deep_view(),
                counts@,
                i as int,
            ),
        decreases parts@.len() - i,
    {
        let ghost before = files.deep_view();
        assert(sections(text@)[i as int] == parts@[i as int]@);
        assert(extracted.deep_view()[i as int] == extracted@[i as int].deep_view());
        if let Some((path, change)) = parse_section(parts[i].as_str(), &extracted[i]) {
            let (added, removed): (usize, usize) = if change.is_some() {
                counts[i]
            } else {
                (0, 0)
            };
            let file = DiffPanelFile { path, added, removed, change };
            files.push(file);
            assert(files.deep_view() =~= before.push(file.deep_view()));
        }
        i += 1;
    }
    files
}

/// The characters of a path with `/` for `\`.
pub open spec fn slashed(path: Seq<char>) -> Seq<char> {
    path.map_values(
        |c: char|
            if c == '\\' {
                '/'
            } else {
                c
            },
    )
}

/// The form of a path in which paths are told apart: with `/` for `\`, and on Windows in lower
/// case.
pub open spec fn normalized(path: Seq<char>, windows: bool) -> Seq<char> {
    if windows {
        crate::text::lowercase(slashed(path))
    } else {
        slashed(path)
    }
}

/// Whether a path is the other one with directories before it.
pub open spec fn below_directory(longer: Seq<char>, shorter: Seq<char>) -> bool {
    &&& crate::text::has_suffix(longer, shorter)
    &&& longer.len() > shorter.len()
    &&& longer[longer.len() - shorter.len() - 1] == '/'
}

/// Whether two paths mean the same file: they are the same, or one is the end of the other at a
/// directory boundary. On Windows the case of letters does not matter.
pub open spec fn same_file(a: Seq<char>, b: Seq<char>, windows: bool) -> bool {
    let left = normalized(a, windows);
    let right = normalized(b, windows);
    left == right || below_directory(left, right) || below_directory(right, left)
}

/// A path with `/` for `\`, and on Windows in lower case.
pub fn normalize_path(path: &str, windows: bool) -> (r: String)
    ensures
        r@ == normalized(path@, windows),
{
    let v = chars_of(path);
    let mut r = String::new();
    let mut i: usize = 0;
    assert(v@.take(0) =~= Seq::empty());
    while i < v.len()
        invariant
            v@ == path@,
            i <= v@.len(),
            r@ == slashed(v@.take(i as int)),
        decreases v@.len() - i,
    {
        if v[i] == '\\' {
            r.push('/');
        } else {
            r.push(v[i]);
        }
        assert(r@ =~= slashed(v@.take(i + 1)));
        i += 1;
    }
    assert(v@.take(i as int) =~= v@);
    if windows {
        to_lowercase(r.as_str())
    } else {
        r
    }
}

fn ends_below_directory(longer: &str, shorter: &str) -> (r: bool)
    ensures
        r == below_directory(longer@, shorter@),
{
    let v = chars_of(longer);
    let s = chars_of(shorter);
    ends_with(longer, shorter) && v.len() > s.len() && v[v.len() - s.len() - 1] == '/'
}

/// Whether two paths mean the same file.
pub fn paths_match(left: &str, right: &str, windows: bool) -> (r: bool)
    ensures
        r == same_file(left@, right@, windows),
{
    let left = normalize_path(left, windows);
    let right = normalize_path(right, windows);
    left == right || ends_below_directory(left.as_str(), right.as_str()) || ends_below_directory(
        right.as_str(),
        left.as_str(),
    )
}

/// Which path comes first does not matter to whether two paths mean the same file.
pub proof fn path_matching_is_symmetric(a: Seq<char>, b: Seq<char>, windows: bool)
    ensures
        same_file(a, b, windows) == same_file(b, a, windows),
        same_file(a, a, windows),
{
}

/// No character of a diff is lost between its sections.
pub proof fn sections_make_up_the_diff(s: Seq<char>)
    ensures
        sections(s).fold_left(Seq::<char>::empty(), |a: Seq<char>, b: Seq<char>| a + b) == s,
{
    lemma_sections_concat(s, Seq::empty());
    assert(Seq::<char>::empty() + s =~= s);
}

proof fn lemma_sections_concat(s: Seq<char>, before: Seq<char>)
    ensures
        sections(s).fold_left(before, |a: Seq<char>, b: Seq<char>| a + b) == before + s,
    decreases s.len(),
{
    let f = |a: Seq<char>, b: Seq<char>| a + b;
    if s.len() == 0 {
        assert(before + s =~= before);
    } else {
        let e = next_section(s, 1);
        if 0 < e < s.len() {
            let head = s.subrange(0, e);
            let tail = s.subrange(e, s.len() as int);
            lemma_sections_concat(tail, before + head);
            assert(head + tail =~= s);
            assert(before + head + tail =~= before + s);
            sections(s).lemma_fold_left_split(before, f, 1);
            assert(sections(s).subrange(0, 1) =~= seq![head]);
            assert(sections(s).subrange(1, sections(s).len() as int) =~= sections(tail));
            assert(seq![head].drop_last() =~= Seq::empty());
            assert(seq![head].fold_left(before, f) == before + head) by {
                reveal_with_fuel(Seq::fold_left, 2);
            }
        } else {
            assert(seq![s].drop_last() =~= Seq::empty());
            assert(seq![s].fold_left(before, f) == before + s) by {
                reveal_with_fuel(Seq::fold_left, 2);
            }
        }
    }
}

proof fn lemma_renamed_to(lines: Seq<Seq<char>>, k: int, path: Seq<char>)
    requires
        0 <= k < lines.len(),
        lines[k] == "rename to "@ + path,
        forall|j: int| 0 <= j < k ==> !crate::text::has_prefix(#[trigger] lines[j], "rename to "@),
    ensures
        renamed_to(lines) == Some(path),
    decreases lines.len(),
{
    let front = lines.drop_last();
    if k < front.len() {
        lemma_renamed_to(front, k, path);
    } else {
        lemma_not_renamed(front);
        assert(lines.last().subrange(0, "rename to "@.len() as int) =~= "rename to "@);
        assert(lines.last().subrange("rename to "@.len() as int, lines.last().len() as int)
            =~= path);
    }
}

proof fn lemma_not_renamed(lines: Seq<Seq<char>>)
    requires
        forall|j: int|
            0 <= j < lines.len() ==> !crate::text::has_prefix(#[trigger] lines[j], "rename to "@),
    ensures
        renamed_to(lines) is None,
    decreases lines.len(),
{
    if lines.len() > 0 {
        lemma_not_renamed(lines.drop_last());
    }
}

proof fn lemma_file_of_section(
    sections: Seq<Seq<char>>,
    extracted: Seq<Seq<Seq<char>>>,
    counts: Seq<(usize, usize)>,
    j: int,
    n: int,
)
    requires
        0 <= j < n,
        section_path(sections[j], extracted[j]) is Some,
    ensures
        files_of(sections, extracted, counts, j).len() < files_of(
            sections,
            extracted,
            counts,
            n,
        ).len(),
        files_of(sections, extracted, counts, n)[files_of(
            sections,
            extracted,
            counts,
            j,
        ).len() as int] == files_of(sections, extracted, counts, j + 1).last(),
    decreases n - j,
{
    if n > j + 1 {
        lemma_file_of_section(sections, extracted, counts, j, n - 1);
    }
}

/// A section that says to which path its file was renamed is the file with that path, whatever
/// its headers name and whether or not it holds a unified diff.
pub proof fn renamed_files_have_their_new_path(
    sections: Seq<Seq<char>>,
    extracted: Seq<Seq<Seq<char>>>,
    counts: Seq<(usize, usize)>,
    n: int,
    j: int,
    k: int,
    path: Seq<char>,
)
    requires
        0 <= j < n,
        0 <= k < crate::text::text_lines(sections[j]).len(),
        crate::text::text_lines(sections[j])[k] == "rename to "@ + path,
        forall|i: int|
            0 <= i < k ==> !crate::text::has_prefix(
                #[trigger] crate::text::text_lines(sections[j])[i],
                "rename to "@,
            ),
    ensures
        section_path(sections[j], extracted[j]) == Some(path),
        files_of(sections, extracted, counts, j).len() < files_of(
            sections,
            extracted,
            counts,
            n,
        ).len(),
        files_of(sections, extracted, counts, n)[files_of(
            sections,
            extracted,
            counts,
            j,
        ).len() as int].path == path,
{
    lemma_renamed_to(crate::text::text_lines(sections[j]), k, path);
    lemma_file_of_section(sections, extracted, counts, j, n);
}

proof fn lemma_last_real(paths: Seq<Seq<char>>, i: int)
    requires
        0 <= i < paths.len(),
        !null_device(paths[i]),
        forall|k: int| i < k < paths.len() ==> null_device(#[trigger] paths[k]),
    ensures
        last_real_path(paths) == Some(paths[i]),
    decreases paths.len(),
{
    if i < paths.len() - 1 {
        assert(null_device(paths.last()));
        lemma_last_real(paths.drop_last(), i);
    }
}

/// The file of a section without a rename has the path that the headers name last, not counting
/// the null device.
pub proof fn changed_files_have_the_last_path(
    sections: Seq<Seq<char>>,
    extracted: Seq<Seq<Seq<char>>>,
    counts: Seq<(usize, usize)>,
    n: int,
    j: int,
    i: int,
)
    requires
        0 <= j < n,
        forall|l: int|
            0 <= l < crate::text::text_lines(sections[j]).len() ==> !crate::text::has_prefix(
                #[trigger] crate::text::text_lines(sections[j])[l],
                "rename to "@,
            ),
        0 <= i < extracted[j].len(),
        extracted[j][i].len() != 3 || !(extracted[j][i][0] == 'n' || extracted[j][i][0] == 'N'),
        forall|l: int|
            i < l < extracted[j].len() ==> (#[trigger] extracted[j][l]) == "NUL"@
                || extracted[j][l] == "nul"@,
    ensures
        files_of(sections, extracted, counts, j).len() < files_of(
            sections,
            extracted,
            counts,
            n,
        ).len(),
        files_of(sections, extracted, counts, n)[files_of(
            sections,
            extracted,
            counts,
            j,
        ).len() as int].path == extracted[j][i],
{
    reveal_strlit("NUL");
    reveal_strlit("nul");
    lemma_not_renamed(crate::text::text_lines(sections[j]));
    lemma_last_real(extracted[j], i);
    lemma_file_of_section(sections, extracted, counts, j, n);
}

/// A section is no file only where nothing names a path for it: no line says to which path it was
/// renamed, and the headers name the null device at most. There are as many files as other
/// sections, in their order.
pub proof fn only_nameless_sections_are_no_files(
    sections: Seq<Seq<char>>,
    extracted: Seq<Seq<Seq<char>>>,
    counts: Seq<(usize, usize)>,
    n: int,
)
    requires
        0 < n,
    ensures
        files_of(sections, extracted, counts, n).len() == files_of(
            sections,
            extracted,
            counts,
            n - 1,
        ).len() + (if (forall|l: int|
            0 <= l < crate::text::text_lines(sections[n - 1]).len() ==> !crate::text::has_prefix(
                #[trigger] crate::text::text_lines(sections[n - 1])[l],
                "rename to "@,
            )) && (forall|i: int|
            0 <= i < extracted[n - 1].len() ==> null_device(#[trigger] extracted[n - 1][i])) {
            0int
        } else {
            1int
        }),
        files_of(sections, extracted, counts, n - 1).is_prefix_of(
            files_of(sections, extracted, counts, n),
        ),
{
    let lines = crate::text::text_lines(sections[n - 1]);
    if forall|l: int|
        0 <= l < lines.len() ==> !crate::text::has_prefix(#[trigger] lines[l], "rename to "@) {
        lemma_not_renamed(lines);
    } else {
        lemma_some_rename(lines);
    }
    lemma_real_path(extracted[n - 1]);
}

proof fn lemma_some_rename(lines: Seq<Seq<char>>)
    requires
        exists|l: int|
            0 <= l < lines.len() && crate::text::has_prefix(#[trigger] lines[l], "rename to "@),
    ensures
        renamed_to(lines) is Some,
    decreases lines.len(),
{
    let l = choose|l: int|
        0 <= l < lines.len() && crate::text::has_prefix(#[trigger] lines[l], "rename to "@);
    if l < lines.len() - 1 {
        assert(crate::text::has_prefix(lines.drop_last()[l], "rename to "@));
        lemma_some_rename(lines.drop_last());
    }
}

proof fn lemma_real_path(paths: Seq<Seq<char>>)
    ensures
        last_real_path(paths) is None <==> (forall|i: int|
            0 <= i < paths.len() ==> null_device(#[trigger] paths[i])),
    decreases paths.len(),
{
    if paths.len() > 0 {
        lemma_real_path(paths.drop_last());
        if null_device(paths.last()) {
            if forall|i: int|
                0 <= i < paths.drop_last().len() ==> null_device(
                    #[trigger] paths.drop_last()[i],
                ) {
                assert forall|i: int| 0 <= i < paths.len() implies null_device(
                    #[trigger] paths[i],
                ) by {
                    if i < paths.len() - 1 {
                        assert(paths.drop_last()[i] == paths[i]);
                    }
                }
            } else {
                let i = choose|i: int|
                    0 <= i < paths.drop_last().len() && !null_device(
                        #[trigger] paths.drop_last()[i],
                    );
                assert(!null_device(paths[i]));
            }
        } else {
            assert(!null_device(paths[paths.len() - 1]));
        }
    }
}

/// The file of a section holds its unified diff: all of the section from the first line on that
/// begins with three dashes and a blank. It has the counts of that diff, and a section without
/// such a line counts nothing.
pub proof fn files_hold_their_unified_diff(
    sections: Seq<Seq<char>>,
    extracted: Seq<Seq<Seq<char>>>,
    counts: Seq<(usize, usize)>,
    n: int,
    j: int,
    at: int,
)
    requires
        0 <= j < n,
        section_path(sections[j], extracted[j]) is Some,
        0 <= at <= sections[j].len(),
        at < sections[j].len() ==> {
            &&& at == 0 || sections[j][at - 1] == '\n'
            &&& at + 4 <= sections[j].len()
            &&& sections[j].subrange(at, at + 4) == "--- "@
        },
        forall|b: int|
            0 <= b < at && b + 4 <= sections[j].len() && (b == 0 || sections[j][b - 1] == '\n')
                ==> (#[trigger] sections[j].subrange(b, b + 4)) != "--- "@,
    ensures
        ({
            let file = files_of(sections, extracted, counts, n)[files_of(
                sections,
                extracted,
                counts,
                j,
            ).len() as int];
            if at < sections[j].len() {
                &&& file.change == Some(sections[j].subrange(at, sections[j].len() as int))
                &&& file.added == counts[j].0
                &&& file.removed == counts[j].1
            } else {
                &&& file.change is None
                &&& file.added == 0
                &&& file.removed == 0
            }
        }),
{
    let s = sections[j];
    reveal_strlit("--- ");
    reveal_strlit("\n--- ");
    lemma_file_of_section(sections, extracted, counts, j, n);
    if at == 0 && s.len() > 0 {
    } else {
        if crate::text::has_prefix(s, "--- "@) {
            assert(s.subrange(0, 0int + 4) == "--- "@);
        }
        assert forall|b: int| 0 <= b < at - 1 && b + 5 <= s.len() implies #[trigger] s.subrange(
            b,
            b + "\n--- "@.len(),
        ) != "\n--- "@ by {
            if s.subrange(b, b + 5) == "\n--- "@ {
                assert(s[b] == s.subrange(b, b + 5)[0]);
                assert(s.subrange(b + 1, b + 1 + 4) =~= "--- "@) by {
                    assert forall|x: int| 0 <= x < 4 implies s[b + 1 + x] == "--- "@[x] by {
                        assert(s[b + 1 + x] == s.subrange(b, b + 5)[x + 1]);
                    }
                }
            }
        }
        if at < s.len() {
            assert(s.subrange(at - 1, at - 1 + 5) =~= "\n--- "@) by {
                assert forall|x: int| 0 <= x < 5 implies s[at - 1 + x] == "\n--- "@[x] by {
                    if x > 0 {
                        assert(s[at + (x - 1)] == s.subrange(at, at + 4)[x - 1]);
                    }
                }
            }
            crate::text::first_match_is_the_first(s, "\n--- "@, 0, at - 1);
        } else {
            crate::text::first_match_is_the_first(s, "\n--- "@, 0, s.len() as int);
        }
    }
}

/// Paths mean the same file where one of them is the other one with directories before it, and
/// whether they are written with slashes or backslashes does not matter. A path with anything but a
/// directory before the other one does not mean the same file.
pub proof fn directories_before_a_path_do_not_matter(directories: Seq<char>, path: Seq<char>)
    ensures
        same_file(directories + seq!['/'] + path, path, false),
        same_file(directories + seq!['\\'] + path, path, false),
        directories.len() > 0 && directories.last() != '/' && directories.last() != '\\'
            && path.len() > 0 ==> !same_file(directories + path, path, false),
        same_file(slashed(path), path, false),
{
    let a = slashed(path);
    let b = slashed(directories + seq!['/'] + path);
    let c = slashed(directories + seq!['\\'] + path);
    assert(b.subrange(b.len() - a.len(), b.len() as int) =~= a);
    assert(c.subrange(c.len() - a.len(), c.len() as int) =~= a);
    assert(b[b.len() - a.len() - 1] == '/');
    assert(c[c.len() - a.len() - 1] == '/');
    let d = slashed(directories + path);
    if directories.len() > 0 {
        assert(d[directories.len() - 1] == slashed(directories)[directories.len() - 1]);
        assert(d.len() == a.len() + directories.len());
    }
    assert(slashed(slashed(path)) =~= slashed(path));
}

/// Two paths that mean the same file end with the same name: neither is a part of a name.
pub proof fn same_files_end_alike(a: Seq<char>, b: Seq<char>)
    requires
        same_file(a, b, false),
    ensures
        a.len() == b.len() ==> slashed(a) == slashed(b),
        a.len() < b.len() ==> slashed(b).subrange(b.len() - a.len(), b.len() as int) == slashed(a)
            && (b[b.len() - a.len() - 1] == '/' || b[b.len() - a.len() - 1] == '\\'),
{
}

} // verus!
