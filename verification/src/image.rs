//! Icons: where their files are looked for, and what came of loading them.

use vstd::prelude::*;
use vstd::string::*;

use crate::command::text_opt;
use crate::text::{chars, path_joined, join_path, same, texts};

verus! {

/// The width and height of an icon where nothing else is set.
pub const DEFAULT_ICON_SIZE: i32 = 48;

/// What loading an image came to: a drawing or a bitmap, by its number, or
/// nothing.
#[derive(Clone, Copy, PartialEq, Eq, Structural, Debug)]
pub enum Loaded {
    Svg(u32),
    Bitmap(u32),
    Failed,
}

/// The drawing that was loaded, if it is one.
pub open spec fn drawing(l: Loaded) -> Option<u32> {
    match l {
        Loaded::Svg(id) => Some(id),
        _ => None,
    }
}

/// The drawing that was loaded, if it is one.
pub fn svg(l: Loaded) -> (r: Option<u32>)
    ensures
        r == drawing(l),
{
    match l {
        Loaded::Svg(id) => Some(id),
        _ => None,
    }
}

/// An image that a button needs.
pub struct ImageRequest {
    pub name: String,
    pub theme: Option<String>,
    pub width: i32,
    pub height: i32,
}

/// The mathematical counterpart of [`ImageRequest`].
#[verifier::ext_equal]
pub struct RequestView {
    pub name: Seq<char>,
    pub theme: Option<Seq<char>>,
    pub width: i32,
    pub height: i32,
}

impl View for ImageRequest {
    type V = RequestView;

    open spec fn view(&self) -> RequestView {
        RequestView {
            name: self.name@,
            theme: text_opt(self.theme),
            width: self.width,
            height: self.height,
        }
    }
}

/// The values of a list of requests.
pub open spec fn requests(v: Seq<ImageRequest>) -> Seq<RequestView> {
    Seq::new(v.len(), |i: int| v[i]@)
}

/// The request for an icon of the default size.
pub open spec fn icon_request(name: Seq<char>, theme: Option<Seq<char>>) -> RequestView {
    RequestView { name, theme, width: DEFAULT_ICON_SIZE, height: DEFAULT_ICON_SIZE }
}

/// Images that were loaded, each with the request for it.
pub struct Images {
    pub entries: Vec<(ImageRequest, Loaded)>,
}

/// What came of a request: that of the first entry for it, and nothing where
/// there is none.
pub open spec fn outcome(entries: Seq<(ImageRequest, Loaded)>, request: RequestView) -> Loaded
    decreases entries.len(),
{
    if entries.len() == 0 {
        Loaded::Failed
    } else if entries[0].0@ == request {
        entries[0].1
    } else {
        outcome(entries.subrange(1, entries.len() as int), request)
    }
}

impl Images {
    /// What came of a request.
    pub open spec fn of(&self, request: RequestView) -> Loaded {
        outcome(self.entries@, request)
    }

    /// The drawing that came of a request for an icon of the default size.
    pub open spec fn icon(&self, name: Seq<char>, theme: Option<Seq<char>>) -> Option<u32> {
        drawing(self.of(icon_request(name, theme)))
    }

    /// No images.
    pub fn new() -> (r: Images)
        ensures
            r.entries@.len() == 0,
    {
        Images { entries: Vec::new() }
    }

    /// Adds what came of a request. Entries that are there already go before it.
    pub fn add_entry(&mut self, request: ImageRequest, image: Loaded)
        ensures
            final(self).entries@ == old(self).entries@.push((request, image)),
    {
        self.entries.push((request, image));
    }

    /// Looks up what came of a request.
    pub fn find(&self, name: &str, theme: &Option<String>, width: i32, height: i32) -> (r: Loaded)
        ensures
            r == self.of(RequestView { name: name@, theme: text_opt(*theme), width, height }),
    {
        let ghost request = RequestView { name: name@, theme: text_opt(*theme), width, height };
        let n = self.entries.len();
        let mut i: usize = 0;
        assert(self.entries@.subrange(0, n as int) =~= self.entries@);
        while i < n
            invariant
                i <= n,
                n == self.entries@.len(),
                request == (RequestView { name: name@, theme: text_opt(*theme), width, height }),
                outcome(self.entries@.subrange(i as int, n as int), request) == self.of(request),
            decreases n - i,
        {
            let ghost rest = self.entries@.subrange(i as int, n as int);
            assert(rest[0] == self.entries@[i as int]);
            assert(rest.subrange(1, rest.len() as int) =~= self.entries@.subrange(
                i + 1,
                n as int,
            ));
            let e = &self.entries[i].0;
            let same_theme = match (&e.theme, theme) {
                (Some(a), Some(b)) => same(a.as_str(), b.as_str()),
                (None, None) => true,
                _ => false,
            };
            if e.width == width && e.height == height && same_theme && same(
                e.name.as_str(),
                name,
            ) {
                assert(e@ == request);
                return self.entries[i].1;
            }
            i += 1;
        }
        Loaded::Failed
    }

    /// Looks up the drawing of an icon of the default size.
    pub fn find_icon(&self, name: &str, theme: &Option<String>) -> (r: Option<u32>)
        ensures
            r == self.icon(name@, text_opt(*theme)),
    {
        svg(self.find(name, theme, DEFAULT_ICON_SIZE, DEFAULT_ICON_SIZE))
    }
}

/// The files to try for an icon without a theme, in their order: in the share
/// directory where one is set, then in the system's directories, a drawing
/// before a bitmap.
pub open spec fn icon_files(name: Seq<char>, share_dir: Option<Seq<char>>) -> Seq<Seq<char>> {
    let system = seq![
        "/etc/tiny-dfr/"@ + name + ".svg"@,
        "/etc/tiny-dfr/"@ + name + ".png"@,
        "/usr/share/tiny-dfr/"@ + name + ".svg"@,
        "/usr/share/tiny-dfr/"@ + name + ".png"@,
    ];
    match share_dir {
        Some(dir) => seq![
            path_joined(dir, name + ".svg"@),
            path_joined(dir, name + ".png"@),
        ] + system,
        None => system,
    }
}

fn three(a: &str, b: &str, c: &str) -> (r: String)
    ensures
        r@ == a@ + b@ + c@,
{
    let mut s = a.to_owned();
    s.append(b);
    s.append(c);
    s
}

/// Lists the files to try for an icon without a theme.
pub fn icon_paths(name: &str, share_dir: &Option<String>) -> (r: Vec<String>)
    ensures
        texts(r@) == icon_files(name@, text_opt(*share_dir)),
{
    let mut paths: Vec<String> = Vec::new();
    match share_dir {
        Some(dir) => {
            let drawing = crate::config::concatenated(name, ".svg");
            let bitmap = crate::config::concatenated(name, ".png");
            paths.push(join_path(dir.as_str(), drawing.as_str()));
            paths.push(join_path(dir.as_str(), bitmap.as_str()));
        },
        None => {},
    }
    paths.push(three("/etc/tiny-dfr/", name, ".svg"));
    paths.push(three("/etc/tiny-dfr/", name, ".png"));
    paths.push(three("/usr/share/tiny-dfr/", name, ".svg"));
    paths.push(three("/usr/share/tiny-dfr/", name, ".png"));
    assert(texts(paths@) =~= icon_files(name@, text_opt(*share_dir)));
    paths
}

/// How a file is loaded.
#[derive(Clone, Copy, PartialEq, Eq, Structural, Debug)]
pub enum ImageFormat {
    Png,
    Svg,
    Unknown,
}

/// The part of a path behind its last slash.
pub open spec fn file_name(path: Seq<char>) -> Seq<char>
    decreases path.len(),
{
    if path.len() == 0 || path.last() == '/' {
        Seq::empty()
    } else {
        file_name(path.drop_last()).push(path.last())
    }
}

/// The part of a file's name behind its last dot, if the name does not begin
/// with that dot.
pub open spec fn extension(name: Seq<char>) -> Option<Seq<char>>
    decreases name.len(),
{
    if name.len() <= 1 {
        None
    } else if name.last() == '.' {
        Some(Seq::empty())
    } else {
        match extension(name.drop_last()) {
            Some(e) => Some(e.push(name.last())),
            None => None,
        }
    }
}

/// How a file is loaded, by its extension.
pub open spec fn format_of(path: Seq<char>) -> ImageFormat {
    if extension(file_name(path)) == Some("png"@) {
        ImageFormat::Png
    } else if extension(file_name(path)) == Some("svg"@) {
        ImageFormat::Svg
    } else {
        ImageFormat::Unknown
    }
}

/// The position behind the last slash of a path.
fn name_start(v: &Vec<char>) -> (r: usize)
    ensures
        r <= v@.len(),
        v@.subrange(r as int, v@.len() as int) == file_name(v@),
{
    let n = v.len();
    let mut i: usize = n;
    assert(v@.subrange(0, n as int) =~= v@);
    assert(v@.subrange(n as int, n as int) =~= Seq::empty());
    assert(file_name(v@) =~= file_name(v@) + Seq::empty());
    while i > 0 && v[i - 1] != '/'
        invariant
            i <= n,
            n == v@.len(),
            file_name(v@) == file_name(v@.subrange(0, i as int)) + v@.subrange(i as int, n as int),
        decreases i,
    {
        let ghost head = v@.subrange(0, i as int);
        assert(head.drop_last() =~= v@.subrange(0, i - 1));
        assert(file_name(v@.subrange(0, i - 1)) + v@.subrange(i - 1, n as int) =~= file_name(head)
            + v@.subrange(i as int, n as int));
        i -= 1;
    }
    assert(file_name(v@.subrange(0, i as int)) =~= Seq::empty());
    assert(file_name(v@) =~= v@.subrange(i as int, n as int));
    i
}

/// Tells how a file is loaded.
pub fn image_format(path: &str) -> (r: ImageFormat)
    ensures
        r == format_of(path@),
{
    let v = chars(path);
    let start = name_start(&v);
    let n = v.len();
    let ghost name = v@.subrange(start as int, n as int);
    let mut i: usize = n;
    assert(name.subrange(0, name.len() as int) =~= name);
    assert(v@.subrange(n as int, n as int) =~= Seq::empty());
    proof {
        match extension(name) {
            Some(e) => {
                assert(e + Seq::empty() =~= e);
            },
            None => {},
        }
    }
    while i > start && i - start > 1 && v[i - 1] != '.'
        invariant
            start <= i <= n,
            n == v@.len(),
            name == v@.subrange(start as int, n as int),
            match extension(name.subrange(0, i - start)) {
                Some(e) => extension(name) == Some(e + v@.subrange(i as int, n as int)),
                None => extension(name) is None,
            },
        decreases i,
    {
        let ghost head = name.subrange(0, i - start);
        assert(head.drop_last() =~= name.subrange(0, i - 1 - start));
        assert(head.last() == v@[i - 1]);
        proof {
            match extension(head.drop_last()) {
                Some(e) => {
                    assert(e.push(v@[i - 1]) + v@.subrange(i as int, n as int) =~= e + v@.subrange(
                        i - 1,
                        n as int,
                    ));
                },
                None => {},
            }
        }
        i -= 1;
    }
    if i <= start || i - start <= 1 {
        return ImageFormat::Unknown;
    }
    assert(Seq::<char>::empty() + v@.subrange(i as int, n as int) =~= v@.subrange(
        i as int,
        n as int,
    ));
    let ext = crate::text::text_of(&v, i, n);
    if same(ext.as_str(), "png") {
        ImageFormat::Png
    } else if same(ext.as_str(), "svg") {
        ImageFormat::Svg
    } else {
        ImageFormat::Unknown
    }
}

/// What came of a request is what the first entry for it says, and nothing came of
/// one that there is no entry for.
pub proof fn first_entry_counts(entries: Seq<(ImageRequest, Loaded)>, request: RequestView)
    ensures
        (forall|i: int| 0 <= i < entries.len() ==> (#[trigger] entries[i]).0@ != request) ==> outcome(
            entries,
            request,
        ) == Loaded::Failed,
        forall|i: int|
            0 <= i < entries.len() && (#[trigger] entries[i]).0@ == request && (forall|j: int|
                0 <= j < i ==> (#[trigger] entries[j]).0@ != request) ==> outcome(entries, request)
                == entries[i].1,
    decreases entries.len(),
{
    if entries.len() > 0 {
        let rest = entries.subrange(1, entries.len() as int);
        first_entry_counts(rest, request);
        if forall|i: int| 0 <= i < entries.len() ==> (#[trigger] entries[i]).0@ != request {
            assert(entries[0].0@ != request);
            assert forall|i: int| 0 <= i < rest.len() implies (#[trigger] rest[i]).0@ != request by {
                assert(rest[i] == entries[i + 1]);
            }
        }
        assert forall|i: int|
            0 <= i < entries.len() && (#[trigger] entries[i]).0@ == request && (forall|j: int|
                0 <= j < i ==> (#[trigger] entries[j]).0@ != request) implies outcome(
            entries,
            request,
        ) == entries[i].1 by {
            if i > 0 {
                assert(entries[0].0@ != request);
                assert(rest[i - 1] == entries[i]);
                assert forall|j: int| 0 <= j < i - 1 implies (#[trigger] rest[j]).0@ != request by {
                    assert(rest[j] == entries[j + 1]);
                }
            }
        }
    }
}

/// An icon without a theme is looked for in the share directory where one is set,
/// then in the system's own directory and at last where it was installed, in each
/// of them as a drawing before a bitmap.
pub proof fn icons_are_looked_for_in_order(name: Seq<char>, dir: Seq<char>)
    ensures
        ({
            let own = icon_files(name, Some(dir));
            let system = icon_files(name, None);
            &&& system.len() == 4
            &&& own.len() == 6
            &&& own.subrange(2, 6) == system
            &&& own[0] == path_joined(dir, name + ".svg"@)
            &&& own[1] == path_joined(dir, name + ".png"@)
            &&& system[0] == "/etc/tiny-dfr/"@ + name + ".svg"@
            &&& system[1] == "/etc/tiny-dfr/"@ + name + ".png"@
            &&& system[2] == "/usr/share/tiny-dfr/"@ + name + ".svg"@
            &&& system[3] == "/usr/share/tiny-dfr/"@ + name + ".png"@
        }),
{
    assert(icon_files(name, Some(dir)).subrange(2, 6) =~= icon_files(name, None));
}

proof fn lemma_file_name(dir: Seq<char>, name: Seq<char>)
    requires
        !name.contains('/'),
    ensures
        file_name(dir.push('/') + name) == name,
        file_name(name) == name,
    decreases name.len(),
{
    let path = dir.push('/') + name;
    if name.len() == 0 {
        assert(path =~= dir.push('/'));
        assert(name =~= Seq::empty());
    } else {
        let front = name.drop_last();
        assert(name[name.len() - 1] == name.last());
        assert(!front.contains('/')) by {
            if front.contains('/') {
                let i = choose|i: int| 0 <= i < front.len() && front[i] == '/';
                assert(name[i] == '/');
            }
        }
        lemma_file_name(dir, front);
        assert(path.drop_last() =~= dir.push('/') + front);
        assert(front.push(name.last()) =~= name);
    }
}

proof fn lemma_extension(stem: Seq<char>, ext: Seq<char>)
    requires
        stem.len() > 0,
        !ext.contains('.'),
    ensures
        extension(stem.push('.') + ext) == Some(ext),
    decreases ext.len(),
{
    let name = stem.push('.') + ext;
    if ext.len() == 0 {
        assert(name =~= stem.push('.'));
        assert(ext =~= Seq::empty());
    } else {
        let front = ext.drop_last();
        assert(ext[ext.len() - 1] == ext.last());
        assert(!front.contains('.')) by {
            if front.contains('.') {
                let i = choose|i: int| 0 <= i < front.len() && front[i] == '.';
                assert(ext[i] == '.');
            }
        }
        lemma_extension(stem, front);
        assert(name.drop_last() =~= stem.push('.') + front);
        assert(front.push(ext.last()) =~= ext);
    }
}

/// A file is loaded as what its name ends with: a drawing or a bitmap, in whatever
/// directory, and not at all where it ends with something else.
pub proof fn format_follows_the_extension(dir: Seq<char>, stem: Seq<char>, ext: Seq<char>)
    requires
        stem.len() > 0,
        !stem.contains('/'),
        !ext.contains('/'),
        !ext.contains('.'),
    ensures
        ({
            let path = dir.push('/') + (stem.push('.') + ext);
            &&& ext == "svg"@ ==> format_of(path) == ImageFormat::Svg
            &&& ext == "png"@ ==> format_of(path) == ImageFormat::Png
            &&& ext != "svg"@ && ext != "png"@ ==> format_of(path) == ImageFormat::Unknown
        }),
{
    reveal_strlit("svg");
    reveal_strlit("png");
    assert("svg"@[0] == 's' && "png"@[0] == 'p');
    let name = stem.push('.') + ext;
    assert(!name.contains('/')) by {
        if name.contains('/') {
            let i = choose|i: int| 0 <= i < name.len() && name[i] == '/';
            if i < stem.len() {
                assert(stem[i] == '/');
            } else if i > stem.len() {
                assert(ext[i - stem.len() - 1] == '/');
            }
        }
    }
    lemma_file_name(dir, name);
    lemma_extension(stem, ext);
}

} // verus!
