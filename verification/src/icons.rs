//! Icons: the names and places that an icon is looked for under, and the order
//! in which ways of loading it are tried.

use crate::button::IconRequest;
use crate::config::Theme;
use crate::text;
use crate::text::{chars_of, ends_with, same_str};
use vstd::prelude::*;
use vstd::string::*;

verus! {

/// The side of an icon in pixels.
pub const ICON_SIZE: i32 = 48;

/// `s` with `suffix` behind it, unless it ends in that already.
pub open spec fn with_suffixed(s: Seq<char>, suffix: Seq<char>) -> Seq<Seq<char>> {
    if text::ends_in(s, suffix) {
        Seq::empty()
    } else {
        seq![s + suffix]
    }
}

/// A name with the endings of image files.
pub open spec fn file_names(name: Seq<char>) -> Seq<Seq<char>> {
    seq![name] + with_suffixed(name, ".svg"@) + with_suffixed(name, ".png"@)
}

/// The names that an icon is looked for under, the best first.
pub open spec fn candidate_names(icon: Seq<char>) -> Seq<Seq<char>> {
    if text::ends_in(icon, "-symbolic"@) {
        file_names(icon)
    } else {
        file_names(icon) + file_names(icon + "-symbolic"@)
    }
}

fn push_file_names(out: &mut Vec<String>, name: &str)
    ensures
        text::texts(final(out)@) == text::texts(old(out)@) + file_names(name@),
{
    let ghost before = text::texts(out@);
    out.push(name.to_owned());
    if !ends_with(name, ".svg") {
        let mut s = name.to_owned();
        s.append(".svg");
        out.push(s);
    }
    if !ends_with(name, ".png") {
        let mut s = name.to_owned();
        s.append(".png");
        out.push(s);
    }
    proof {
        assert(text::texts(out@) =~= before + file_names(name@));
    }
}

/// The names that an icon is looked for under: as given, then as a symbolic
/// icon, each bare and with the endings of image files that it lacks.
pub fn icon_name_candidates(icon_name: &str) -> (r: Vec<String>)
    ensures
        text::texts(r@) == candidate_names(icon_name@),
{
    let mut names: Vec<String> = Vec::new();
    push_file_names(&mut names, icon_name);
    if !ends_with(icon_name, "-symbolic") {
        let mut symbolic = icon_name.to_owned();
        symbolic.append("-symbolic");
        push_file_names(&mut names, symbolic.as_str());
    }
    proof {
        assert(text::texts(names@) =~= candidate_names(icon_name@));
    }
    names
}

/// The directories below a root that icons of a theme are looked for in.
pub open spec fn theme_subdirs(theme: Seq<char>) -> Seq<Seq<Seq<char>>> {
    seq![
        seq![],
        seq![theme],
        seq![theme, "symbolic"@],
        seq![theme, "symbolic"@, "status"@],
        seq![theme, "symbolic"@, "actions"@],
        seq![theme, "symbolic"@, "apps"@],
        seq!["hicolor"@, "symbolic"@, "status"@],
        seq!["hicolor"@, "symbolic"@, "actions"@],
        seq!["hicolor"@, "symbolic"@, "apps"@],
    ]
}

/// The characters of each list of strings.
pub open spec fn text_lists(lists: Seq<Vec<String>>) -> Seq<Seq<Seq<char>>> {
    Seq::new(lists.len(), |i: int| text::texts(lists[i]@))
}

fn path_of(a: &str, b: &str, c: &str) -> (r: Vec<String>)
    ensures
        text::texts(r@) == seq![a@, b@, c@],
{
    let mut v: Vec<String> = Vec::new();
    v.push(a.to_owned());
    v.push(b.to_owned());
    v.push(c.to_owned());
    proof {
        assert(text::texts(v@) =~= seq![a@, b@, c@]);
    }
    v
}

/// The directories below a root that icons of a theme are looked for in.
pub fn theme_icon_subdirs(theme: &str) -> (r: Vec<Vec<String>>)
    ensures
        text_lists(r@) == theme_subdirs(theme@),
{
    let none: Vec<String> = Vec::new();
    let mut one: Vec<String> = Vec::new();
    one.push(theme.to_owned());
    let mut two: Vec<String> = Vec::new();
    two.push(theme.to_owned());
    two.push("symbolic".to_owned());
    proof {
        assert(text::texts(none@) =~= seq![]);
        assert(text::texts(one@) =~= seq![theme@]);
        assert(text::texts(two@) =~= seq![theme@, "symbolic"@]);
    }
    let mut all: Vec<Vec<String>> = Vec::new();
    all.push(none);
    all.push(one);
    all.push(two);
    all.push(path_of(theme, "symbolic", "status"));
    all.push(path_of(theme, "symbolic", "actions"));
    all.push(path_of(theme, "symbolic", "apps"));
    all.push(path_of("hicolor", "symbolic", "status"));
    all.push(path_of("hicolor", "symbolic", "actions"));
    all.push(path_of("hicolor", "symbolic", "apps"));
    proof {
        assert(text_lists(all@) =~= theme_subdirs(theme@));
    }
    all
}

/// A path with a further part: an absolute part replaces the path, any other
/// is put behind it, with one separator in between.
pub open spec fn extended(path: Seq<char>, part: Seq<char>) -> Seq<char> {
    if part.len() > 0 && part[0] == '/' {
        part
    } else if path.len() > 0 && path.last() != '/' {
        path + "/"@ + part
    } else {
        path + part
    }
}

/// A path with several further parts.
pub open spec fn extended_by(path: Seq<char>, parts: Seq<Seq<char>>) -> Seq<char>
    decreases parts.len(),
{
    if parts.len() == 0 {
        path
    } else {
        extended(extended_by(path, parts.drop_last()), parts.last())
    }
}

/// A path with a further part.
pub fn extend_path(path: &str, part: &str) -> (r: String)
    ensures
        r@ == extended(path@, part@),
{
    let front = chars_of(path);
    let back = chars_of(part);
    if back.len() > 0 && back[0] == '/' {
        return part.to_owned();
    }
    let mut r = path.to_owned();
    if front.len() > 0 && front[front.len() - 1] != '/' {
        r.append("/");
    }
    r.append(part);
    r
}

fn extend_path_by(path: &str, parts: &Vec<String>) -> (r: String)
    ensures
        r@ == extended_by(path@, text::texts(parts@)),
{
    let ghost all = text::texts(parts@);
    let mut r = path.to_owned();
    let mut i: usize = 0;
    proof {
        assert(all.take(0) =~= Seq::empty());
    }
    while i < parts.len()
        invariant
            i <= parts@.len(),
            all == text::texts(parts@),
            r@ == extended_by(path@, all.take(i as int)),
        decreases parts.len() - i,
    {
        proof {
            assert(all.take(i + 1).drop_last() =~= all.take(i as int));
            assert(all.take(i + 1).last() == parts@[i as int]@);
        }
        r = extend_path(r.as_str(), parts[i].as_str());
        i += 1;
    }
    proof {
        assert(all.take(parts@.len() as int) =~= all);
    }
    r
}

/// The paths of a file name below one root, for every directory of the theme.
pub open spec fn paths_below(root: Seq<char>, name: Seq<char>, theme: Seq<char>) -> Seq<Seq<char>> {
    Seq::new(
        theme_subdirs(theme).len(),
        |i: int| extended(extended_by(root, theme_subdirs(theme)[i]), name),
    )
}

/// The paths of a file name below all roots.
pub open spec fn paths_of(name: Seq<char>, theme: Seq<char>) -> Seq<Seq<char>> {
    paths_below("/etc/tiny-dfr/icons"@, name, theme) + paths_below(
        "/usr/share/tiny-dfr/icons"@,
        name,
        theme,
    ) + paths_below("/usr/share/icons"@, name, theme) + paths_below(
        "/usr/share/pixmaps"@,
        name,
        theme,
    )
}

/// The paths of several file names, in order.
pub open spec fn paths_of_all(names: Seq<Seq<char>>, theme: Seq<char>) -> Seq<Seq<char>>
    decreases names.len(),
{
    if names.len() == 0 {
        Seq::empty()
    } else {
        paths_of_all(names.drop_last(), theme) + paths_of(names.last(), theme)
    }
}

/// The paths that an icon is looked for at, the best first.
pub open spec fn icon_paths(icon: Seq<char>, theme: Seq<char>) -> Seq<Seq<char>> {
    paths_of_all(candidate_names(icon), theme)
}

fn push_paths_below(out: &mut Vec<String>, root: &str, name: &str, theme: &str)
    ensures
        text::texts(final(out)@) == text::texts(old(out)@) + paths_below(root@, name@, theme@),
{
    let ghost before = text::texts(out@);
    let ghost want = paths_below(root@, name@, theme@);
    let subdirs = theme_icon_subdirs(theme);
    proof {
        assert(text_lists(subdirs@).len() == subdirs@.len());
        assert(text::texts(out@) =~= before + want.take(0));
    }
    let mut i: usize = 0;
    while i < subdirs.len()
        invariant
            i <= subdirs@.len(),
            subdirs@.len() == want.len(),
            text_lists(subdirs@) == theme_subdirs(theme@),
            want == paths_below(root@, name@, theme@),
            text::texts(out@) == before + want.take(i as int),
        decreases subdirs.len() - i,
    {
        let ghost so_far = text::texts(out@);
        proof {
            assert(text_lists(subdirs@)[i as int] == text::texts(subdirs@[i as int]@));
        }
        let dir = extend_path_by(root, &subdirs[i]);
        let path = extend_path(dir.as_str(), name);
        out.push(path);
        proof {
            assert(text::texts(out@) =~= so_far.push(want[i as int]));
            assert(text::texts(out@) =~= before + want.take(i + 1));
        }
        i += 1;
    }
    proof {
        assert(want.take(subdirs@.len() as int) =~= want);
    }
}

/// The paths that an icon is looked for at: for each name, below each root, in
/// each directory of the theme.
pub fn icon_search_paths(icon_name: &str, icon_theme: &str) -> (r: Vec<String>)
    ensures
        text::texts(r@) == icon_paths(icon_name@, icon_theme@),
{
    let names = icon_name_candidates(icon_name);
    let ghost all = text::texts(names@);
    let mut out: Vec<String> = Vec::new();
    let mut i: usize = 0;
    proof {
        assert(all.take(0) =~= Seq::empty());
        assert(text::texts(out@) =~= Seq::empty());
    }
    while i < names.len()
        invariant
            i <= names@.len(),
            all == text::texts(names@),
            text::texts(out@) == paths_of_all(all.take(i as int), icon_theme@),
        decreases names.len() - i,
    {
        let ghost before = text::texts(out@);
        proof {
            assert(all.take(i + 1).drop_last() =~= all.take(i as int));
            assert(all.take(i + 1).last() == names@[i as int]@);
        }
        let name = names[i].as_str();
        push_paths_below(&mut out, "/etc/tiny-dfr/icons", name, icon_theme);
        push_paths_below(&mut out, "/usr/share/tiny-dfr/icons", name, icon_theme);
        push_paths_below(&mut out, "/usr/share/icons", name, icon_theme);
        push_paths_below(&mut out, "/usr/share/pixmaps", name, icon_theme);
        proof {
            assert(text::texts(out@) =~= before + paths_of(name@, icon_theme@));
        }
        i += 1;
    }
    proof {
        assert(all.take(names@.len() as int) =~= all);
    }
    out
}

/// The probe gives this answer for the path.
pub open spec fn says<F: Fn(&String) -> bool>(probe: F, path: Seq<char>, answer: bool) -> bool {
    exists|p: &String| p@ == path && #[trigger] probe.ensures((p,), answer)
}

/// The first path that an icon is found at, where `is_file` tells whether
/// there is a file at a path.
pub fn resolve_icon_path<F: Fn(&String) -> bool>(
    icon_name: &str,
    icon_theme: &str,
    is_file: F,
) -> (r: Option<String>)
    requires
        forall|p: &String| #[trigger] is_file.requires((p,)),
    ensures
        ({
            let paths = icon_paths(icon_name@, icon_theme@);
            match r {
                Some(found) => exists|i: int|
                    {
                        &&& 0 <= i < paths.len()
                        &&& found@ == #[trigger] paths[i]
                        &&& says(is_file, paths[i], true)
                        &&& forall|j: int|
                            0 <= j < i ==> says(is_file, #[trigger] paths[j], false)
                    },
                None => forall|j: int|
                    0 <= j < paths.len() ==> says(is_file, #[trigger] paths[j], false),
            }
        }),
{
    let paths = icon_search_paths(icon_name, icon_theme);
    let ghost all = icon_paths(icon_name@, icon_theme@);
    let mut i: usize = 0;
    while i < paths.len()
        invariant
            i <= paths@.len(),
            text::texts(paths@) == all,
            all == icon_paths(icon_name@, icon_theme@),
            forall|p: &String| #[trigger] is_file.requires((p,)),
            forall|j: int| 0 <= j < i ==> says(is_file, #[trigger] all[j], false),
        decreases paths.len() - i,
    {
        proof {
            assert(all[i as int] == paths@[i as int]@);
        }
        if is_file(&paths[i]) {
            return Some(paths[i].clone());
        }
        i += 1;
    }
    None
}

/// The format of an image file.
#[derive(Clone, Copy, PartialEq, Eq, Structural, Debug)]
pub enum IconFormat {
    Svg,
    Png,
}

/// The format that the ending of a path stands for, where it is known.
pub open spec fn format_of(path: Seq<char>) -> Option<IconFormat> {
    if text::ends_in(path, ".svg"@) {
        Some(IconFormat::Svg)
    } else if text::ends_in(path, ".png"@) {
        Some(IconFormat::Png)
    } else {
        None
    }
}

/// The format of an image file, by the ending of its path.
pub fn icon_format(path: &str) -> (r: Option<IconFormat>)
    ensures
        r == format_of(path@),
{
    if ends_with(path, ".svg") {
        Some(IconFormat::Svg)
    } else if ends_with(path, ".png") {
        Some(IconFormat::Png)
    } else {
        None
    }
}

/// Tells whether a bitmap has the size of an icon; any other is scaled.
pub fn fits_icon(width: i32, height: i32) -> (r: bool)
    ensures
        r == (width == ICON_SIZE && height == ICON_SIZE),
{
    height == ICON_SIZE && width == ICON_SIZE
}

/// The directories that are put in front of those of the icon loader.
pub fn icon_loader_roots() -> (r: Vec<String>)
    ensures
        text::texts(r@) == seq![
            "/etc/tiny-dfr/icons"@,
            "/usr/share/tiny-dfr/icons/"@,
            "/usr/share/icons/"@,
        ],
{
    let mut roots: Vec<String> = Vec::new();
    roots.push("/etc/tiny-dfr/icons".to_owned());
    roots.push("/usr/share/tiny-dfr/icons/".to_owned());
    roots.push("/usr/share/icons/".to_owned());
    proof {
        assert(text::texts(roots@) =~= seq![
            "/etc/tiny-dfr/icons"@,
            "/usr/share/tiny-dfr/icons/"@,
            "/usr/share/icons/"@,
        ]);
    }
    roots
}

/// One way of loading an icon.
pub enum IconSource {
    /// By name, from a theme.
    ThemeLoader(String),
    /// From the first file found for a theme.
    ThemeFiles(String),
    /// From a vector file.
    SvgFile(String),
    /// From a bitmap file: the first of two that can be opened.
    PngFile(String, String),
}

/// One way of loading an icon, by its text.
pub enum SourceView {
    ThemeLoader(Seq<char>),
    ThemeFiles(Seq<char>),
    SvgFile(Seq<char>),
    PngFile(Seq<char>, Seq<char>),
}

impl View for IconSource {
    type V = SourceView;

    open spec fn view(&self) -> SourceView {
        match *self {
            IconSource::ThemeLoader(t) => SourceView::ThemeLoader(t@),
            IconSource::ThemeFiles(t) => SourceView::ThemeFiles(t@),
            IconSource::SvgFile(p) => SourceView::SvgFile(p@),
            IconSource::PngFile(p, q) => SourceView::PngFile(p@, q@),
        }
    }
}

/// The theme of icons in a mode.
pub open spec fn theme_for(mode: Seq<char>, theme: Theme) -> Seq<char> {
    if mode == "App"@ {
        theme.app_icon_theme@
    } else {
        theme.media_icon_theme@
    }
}

/// The ways of loading an icon in the order in which they are tried: the theme
/// first, unless a path of its own is given, then vector files, then bitmaps.
pub open spec fn load_plan(request: IconRequest, theme: Option<Theme>) -> Seq<SourceView> {
    let files = seq![
        SourceView::SvgFile(request.path@),
        SourceView::SvgFile("/usr/share/pixmaps/"@ + request.name@ + ".svg"@),
        SourceView::PngFile(request.path@, "/usr/share/pixmaps/"@ + request.name@ + ".png"@),
    ];
    if request.path@ == "use_default"@ {
        let name = theme_for(request.mode->0@, theme->0);
        seq![SourceView::ThemeLoader(name), SourceView::ThemeFiles(name)] + files
    } else {
        files
    }
}

/// The views of a list of sources.
pub open spec fn source_views(sources: Seq<IconSource>) -> Seq<SourceView> {
    Seq::new(sources.len(), |i: int| sources[i]@)
}

/// Tells whether an icon is looked for in the theme.
pub fn uses_theme(request: &IconRequest) -> (r: bool)
    ensures
        r == (request.path@ == "use_default"@),
{
    same_str(request.path.as_str(), "use_default")
}

fn pixmap_path(name: &str, ending: &str) -> (r: String)
    ensures
        r@ == "/usr/share/pixmaps/"@ + name@ + ending@,
{
    let mut path = "/usr/share/pixmaps/".to_owned();
    path.append(name);
    path.append(ending);
    path
}

/// The ways of loading an icon, in the order in which they are tried. An icon
/// that is looked for in the theme needs a mode and the themes.
pub fn icon_load_plan(request: &IconRequest, theme: &Option<Theme>) -> (r: Vec<IconSource>)
    requires
        request.path@ == "use_default"@ ==> request.mode is Some && theme is Some,
    ensures
        source_views(r@) == load_plan(*request, *theme),
{
    let mut plan: Vec<IconSource> = Vec::new();
    if uses_theme(request) {
        if let Some(mode) = &request.mode {
            if let Some(themes) = theme {
                let name = if same_str(mode.as_str(), "App") {
                    themes.app_icon_theme.as_str()
                } else {
                    themes.media_icon_theme.as_str()
                };
                plan.push(IconSource::ThemeLoader(name.to_owned()));
                plan.push(IconSource::ThemeFiles(name.to_owned()));
            }
        }
    }
    plan.push(IconSource::SvgFile(request.path.clone()));
    plan.push(IconSource::SvgFile(pixmap_path(request.name.as_str(), ".svg")));
    plan.push(
        IconSource::PngFile(
            request.path.clone(),
            pixmap_path(request.name.as_str(), ".png"),
        ),
    );
    proof {
        assert(source_views(plan@) =~= load_plan(*request, *theme));
    }
    plan
}

/// An icon is looked for by its name, then by its name as a vector and as a
/// bitmap file, then by the same three names of its symbolic form.
pub proof fn plain_names_have_six_forms(icon: Seq<char>)
    requires
        !text::ends_in(icon, ".svg"@),
        !text::ends_in(icon, ".png"@),
        !text::ends_in(icon, "-symbolic"@),
    ensures
        ({
            let names = candidate_names(icon);
            let symbolic = icon + "-symbolic"@;
            &&& names.len() == 6
            &&& names[0] == icon
            &&& names[1] == icon + ".svg"@
            &&& names[2] == icon + ".png"@
            &&& names[3] == symbolic
            &&& names[4] == symbolic + ".svg"@
            &&& names[5] == symbolic + ".png"@
        }),
{
    let symbolic = icon + "-symbolic"@;
    reveal_strlit("-symbolic");
    reveal_strlit(".svg");
    reveal_strlit(".png");
    assert(symbolic.last() == 'c');
    let n = symbolic.len();
    assert(".svg"@[3] == 'g' && ".png"@[3] == 'g');
    if text::ends_in(symbolic, ".svg"@) {
        assert(symbolic.subrange(n - 4, n as int)[3] == 'c');
    }
    if text::ends_in(symbolic, ".png"@) {
        assert(symbolic.subrange(n - 4, n as int)[3] == 'c');
    }
}

/// The name itself goes first among its forms as files. An ending that it has
/// is not put on it again.
pub proof fn endings_are_not_repeated(name: Seq<char>)
    ensures
        ({
            let names = file_names(name);
            let svg = text::ends_in(name, ".svg"@);
            let png = text::ends_in(name, ".png"@);
            &&& names[0] == name
            &&& !svg ==> names[1] == name + ".svg"@
            &&& !png ==> names.last() == name + ".png"@
            &&& names.len() == 3 - (if svg {
                1int
            } else {
                0
            }) - (if png {
                1int
            } else {
                0
            })
        }),
{
}

/// A name that is not symbolic is looked for in its own forms and then in those
/// of its symbolic name; a symbolic one in its own alone.
pub proof fn symbolic_names_go_last(icon: Seq<char>)
    ensures
        text::ends_in(icon, "-symbolic"@) ==> candidate_names(icon) == file_names(icon),
        !text::ends_in(icon, "-symbolic"@) ==> candidate_names(icon) == file_names(icon)
            + file_names(icon + "-symbolic"@),
{
}

/// Icons are looked for in the root itself, in the theme, in its symbolic icons
/// and three kinds of these, and then in the same three kinds of the common
/// theme.
pub proof fn themes_have_nine_places(theme: Seq<char>)
    ensures
        ({
            let dirs = theme_subdirs(theme);
            &&& dirs.len() == 9
            &&& dirs[0].len() == 0
            &&& dirs[1] == seq![theme]
            &&& dirs[2] == seq![theme, "symbolic"@]
            &&& dirs[3] == seq![theme, "symbolic"@, "status"@]
            &&& dirs[4] == seq![theme, "symbolic"@, "actions"@]
            &&& dirs[5] == seq![theme, "symbolic"@, "apps"@]
            &&& forall|k: int|
                3 <= k < 6 ==> #[trigger] dirs[k + 3] == seq!["hicolor"@] + dirs[k].skip(1)
        }),
{
    let dirs = theme_subdirs(theme);
    assert(dirs[3].skip(1) =~= seq!["symbolic"@, "status"@]);
    assert(dirs[4].skip(1) =~= seq!["symbolic"@, "actions"@]);
    assert(dirs[5].skip(1) =~= seq!["symbolic"@, "apps"@]);
    assert(dirs[6] =~= seq!["hicolor"@] + dirs[3].skip(1));
    assert(dirs[7] =~= seq!["hicolor"@] + dirs[4].skip(1));
    assert(dirs[8] =~= seq!["hicolor"@] + dirs[5].skip(1));
}

/// A part goes behind a path with one separator in between, whether the path
/// ends in one or not; a part that begins with one takes the place of the path.
pub proof fn paths_are_extended(path: Seq<char>, part: Seq<char>)
    requires
        path.len() > 0,
        path.last() != '/',
        part.len() == 0 || part[0] != '/',
    ensures
        extended(path, part) == path + seq!['/'] + part,
        extended(path + seq!['/'], part) == path + seq!['/'] + part,
        extended(path, seq!['/'] + part) == seq!['/'] + part,
        extended(Seq::empty(), part) == part,
{
    reveal_strlit("/");
    assert("/"@ =~= seq!['/']);
    assert(Seq::<char>::empty() + part =~= part);
    assert((path + seq!['/']).last() == '/');
    assert((seq!['/'] + part)[0] == '/');
}

/// Several parts go behind a path one after the other.
pub proof fn parts_extend_in_order(path: Seq<char>, parts: Seq<Seq<char>>, part: Seq<char>)
    ensures
        extended_by(path, Seq::empty()) == path,
        extended_by(path, parts.push(part)) == extended(extended_by(path, parts), part),
{
    assert(parts.push(part).drop_last() =~= parts);
}

/// The roots that icons are looked for below, the best first.
pub open spec fn roots() -> Seq<Seq<char>> {
    seq![
        "/etc/tiny-dfr/icons"@,
        "/usr/share/tiny-dfr/icons"@,
        "/usr/share/icons"@,
        "/usr/share/pixmaps"@,
    ]
}

proof fn lemma_paths_of(name: Seq<char>, theme: Seq<char>, r: int, d: int)
    requires
        0 <= r < 4,
        0 <= d < 9,
    ensures
        paths_of(name, theme).len() == 36,
        paths_of(name, theme)[9 * r + d] == extended(
            extended_by(roots()[r], theme_subdirs(theme)[d]),
            name,
        ),
{
    let a = paths_below("/etc/tiny-dfr/icons"@, name, theme);
    let b = paths_below("/usr/share/tiny-dfr/icons"@, name, theme);
    let c = paths_below("/usr/share/icons"@, name, theme);
    let e = paths_below("/usr/share/pixmaps"@, name, theme);
    assert(a.len() == 9 && b.len() == 9 && c.len() == 9 && e.len() == 9);
    let all = paths_of(name, theme);
    assert(all == a + b + c + e);
    if r == 0 {
        assert(all[d] == a[d]);
    } else if r == 1 {
        assert(all[9 + d] == b[d]);
    } else if r == 2 {
        assert(all[18 + d] == c[d]);
    } else {
        assert(all[27 + d] == e[d]);
    }
}

proof fn lemma_paths_of_all(names: Seq<Seq<char>>, theme: Seq<char>, n: int, r: int, d: int)
    requires
        0 <= n < names.len(),
        0 <= r < 4,
        0 <= d < 9,
    ensures
        paths_of_all(names, theme).len() == 36 * names.len(),
        paths_of_all(names, theme)[36 * n + 9 * r + d] == extended(
            extended_by(roots()[r], theme_subdirs(theme)[d]),
            names[n],
        ),
    decreases names.len(),
{
    let head = names.drop_last();
    lemma_paths_of(names.last(), theme, r, d);
    if head.len() > 0 {
        lemma_paths_of_all(
            head,
            theme,
            if n < head.len() {
                n
            } else {
                0
            },
            r,
            d,
        );
    }
    let earlier = paths_of_all(head, theme);
    assert(earlier.len() == 36 * head.len());
    let all = paths_of_all(names, theme);
    if n < head.len() {
        assert(all[36 * n + 9 * r + d] == earlier[36 * n + 9 * r + d]);
        assert(head[n] == names[n]);
    } else {
        assert(all[36 * n + 9 * r + d] == paths_of(names.last(), theme)[9 * r + d]);
    }
}

/// Where an icon is looked for, in order: every name before the next, below
/// every root before the next, in every place of the theme.
pub proof fn icons_are_looked_for_in_order(
    icon: Seq<char>,
    theme: Seq<char>,
    n: int,
    r: int,
    d: int,
)
    requires
        0 <= n < candidate_names(icon).len(),
        0 <= r < 4,
        0 <= d < 9,
    ensures
        icon_paths(icon, theme).len() == 36 * candidate_names(icon).len(),
        icon_paths(icon, theme)[36 * n + 9 * r + d] == extended(
            extended_by(roots()[r], theme_subdirs(theme)[d]),
            candidate_names(icon)[n],
        ),
{
    lemma_paths_of_all(candidate_names(icon), theme, n, r, d);
}

/// The ending of a path tells its format; others have none.
pub proof fn endings_tell_formats(path: Seq<char>)
    ensures
        format_of(path + ".svg"@) == Some(IconFormat::Svg),
        format_of(path + ".png"@) == Some(IconFormat::Png),
        format_of(path) is None <==> !text::ends_in(path, ".svg"@) && !text::ends_in(path, ".png"@),
{
    reveal_strlit(".svg");
    reveal_strlit(".png");
    text::parts_occur(path, ".svg"@, Seq::empty());
    text::parts_occur(path, ".png"@, Seq::empty());
    let p = path + ".png"@;
    let n = p.len() as int;
    assert(p[n - 3] == 'p');
    if text::ends_in(p, ".svg"@) {
        assert(p.subrange(n - 4, n)[1] == p[n - 3]);
        assert(".svg"@[1] == 's');
    }
}

/// An icon without a path of its own is loaded from the theme of its mode first,
/// by the loader and then from files. Behind that, and at once where there is a
/// path, come the vector file at the path, that of its name, and bitmaps.
pub proof fn icons_are_loaded_in_order(request: IconRequest, theme: Option<Theme>)
    requires
        request.path@ == "use_default"@ ==> request.mode is Some && theme is Some,
    ensures
        ({
            let plan = load_plan(request, theme);
            let n = plan.len();
            let pixmap = "/usr/share/pixmaps/"@ + request.name@;
            &&& request.path@ == "use_default"@ ==> {
                let name = if request.mode->0@ == "App"@ {
                    theme->0.app_icon_theme@
                } else {
                    theme->0.media_icon_theme@
                };
                &&& n == 5
                &&& plan[0] == SourceView::ThemeLoader(name)
                &&& plan[1] == SourceView::ThemeFiles(name)
            }
            &&& request.path@ != "use_default"@ ==> n == 3
            &&& plan[n - 3] == SourceView::SvgFile(request.path@)
            &&& plan[n - 2] == SourceView::SvgFile(pixmap + ".svg"@)
            &&& plan[n - 1] == SourceView::PngFile(request.path@, pixmap + ".png"@)
        }),
{
}

} // verus!
