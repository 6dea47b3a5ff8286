//! Application icons: finding their files and bringing them to size.

use crate::paths;
use crate::text;
use vstd::prelude::*;

verus! {

/// A bitmap of four bytes per pixel.
#[derive(Debug)]
pub struct RgbaBitmap {
    pub pixels: Vec<u8>,
    pub width: i32,
    pub height: i32,
}

pub struct BitmapModel {
    pub pixels: Seq<u8>,
    pub width: int,
    pub height: int,
}

impl View for RgbaBitmap {
    type V = BitmapModel;

    open spec fn view(&self) -> BitmapModel {
        BitmapModel {
            pixels: self.pixels@,
            width: self.width as int,
            height: self.height as int,
        }
    }
}

/// An image as it was decoded.
#[derive(Debug)]
pub struct DecodedImage {
    pub pixels: Vec<u8>,
    pub width: u32,
    pub height: u32,
}

pub struct DecodedModel {
    pub pixels: Seq<u8>,
    pub width: u32,
    pub height: u32,
}

impl View for DecodedImage {
    type V = DecodedModel;

    open spec fn view(&self) -> DecodedModel {
        DecodedModel { pixels: self.pixels@, width: self.width, height: self.height }
    }
}

impl DecodedModel {
    /// There are four bytes for every pixel.
    pub open spec fn wf(self) -> bool {
        self.pixels.len() == 4 * self.width * self.height
    }

    /// The buffers that resizing needs, of four numbers of four bytes per
    /// pixel at most, are not larger than memory can be.
    pub open spec fn resizable(self, size: int) -> bool {
        16 * self.width * size <= isize::MAX && 4 * size * size <= isize::MAX
    }

    /// The image as a square bitmap.
    pub open spec fn fitted(self, size: int) -> BitmapModel {
        BitmapModel {
            pixels: if self.width == size && self.height == size {
                self.pixels
            } else {
                resized_pixels(self.pixels, self.width, self.height, size as u32)
            },
            width: size,
            height: size,
        }
    }
}

/// The file formats of icons.
#[derive(Debug, Clone, Copy, PartialEq, Eq, Structural)]
pub enum IconFormat {
    Png,
    Jpeg,
}

/// `image::load_from_memory_with_format`, converted to four bytes per pixel.
pub uninterp spec fn decoded_image(file: Seq<u8>, format: IconFormat) -> Option<DecodedModel>;

/// `image::imageops::resize` to a square, with the triangle filter.
pub uninterp spec fn resized_pixels(pixels: Seq<u8>, width: u32, height: u32, size: u32) -> Seq<u8>;

/// Calls `image::load_from_memory_with_format` and then `into_rgba8`. What
/// comes back depends on the bytes and the format alone, and has four bytes for
/// each of its pixels.
#[verifier::external_body]
fn decode(file: &[u8], format: IconFormat) -> (r: Option<DecodedImage>)
    ensures
        match r {
            Some(image) => decoded_image(file@, format) == Some(image@) && image@.wf(),
            None => decoded_image(file@, format) is None,
        },
{
    let format = match format {
        IconFormat::Png => image::ImageFormat::Png,
        IconFormat::Jpeg => image::ImageFormat::Jpeg,
    };
    let decoded = image::load_from_memory_with_format(file, format).ok()?.into_rgba8();
    let (width, height) = decoded.dimensions();
    Some(DecodedImage { width, height, pixels: decoded.into_raw() })
}

/// Calls `image::imageops::resize` with `FilterType::Triangle`. The result
/// depends on the image and the wanted size alone, and has four bytes for each
/// pixel of that size.
#[verifier::external_body]
fn resize(image: DecodedImage, size: u32) -> (pixels: Vec<u8>)
    requires
        image@.wf(),
        image@.resizable(size as int),
    ensures
        pixels@ == resized_pixels(image.pixels@, image.width, image.height, size),
        pixels@.len() == 4 * size * size,
{
    let source = image::RgbaImage::from_raw(image.width, image.height, image.pixels).expect(
        "four bytes for every pixel",
    );
    image::imageops::resize(&source, size, size, image::imageops::FilterType::Triangle).into_raw()
}

/// The side of the icon that is made: a size below one counts as one.
pub open spec fn icon_side(size: int) -> int {
    if size >= 1 {
        size
    } else {
        1
    }
}

/// Whether the buffers that resizing needs can be had.
pub fn is_resizable(image: &DecodedImage, size: i32) -> (r: bool)
    ensures
        r == image@.resizable(icon_side(size as int)),
{
    let side: u128 = if size >= 1 {
        size as u128
    } else {
        1
    };
    let limit: u128 = isize::MAX as u128;
    let width: u128 = image.width as u128;
    assert(16 * width * side <= 16 * 0xffff_ffff * 0x7fff_ffff) by (nonlinear_arith)
        requires
            width <= 0xffff_ffff,
            1 <= side <= 0x7fff_ffff,
    ;
    assert(4 * side * side <= 4 * 0x7fff_ffff * 0x7fff_ffff) by (nonlinear_arith)
        requires
            1 <= side <= 0x7fff_ffff,
    ;
    16 * width * side <= limit && 4 * side * side <= limit
}

/// Brings an image to a square of `size` pixels, leaving it alone where it has
/// that size.
pub fn fit(image: DecodedImage, size: i32) -> (r: RgbaBitmap)
    requires
        image@.wf(),
        image@.resizable(icon_side(size as int)),
    ensures
        r@ == image@.fitted(icon_side(size as int)),
{
    let side: i32 = if size >= 1 {
        size
    } else {
        1
    };
    if image.width == side as u32 && image.height == side as u32 {
        RgbaBitmap { pixels: image.pixels, width: side, height: side }
    } else {
        RgbaBitmap { pixels: resize(image, side as u32), width: side, height: side }
    }
}

/// The icon in a file. There is none where the file cannot be decoded, or
/// where resizing it would take more than memory can hold.
pub open spec fn icon_in(file: Seq<u8>, format: IconFormat, size: int) -> Option<BitmapModel> {
    match decoded_image(file, format) {
        Some(image) => if image.resizable(icon_side(size)) {
            Some(image.fitted(icon_side(size)))
        } else {
            None
        },
        None => None,
    }
}

/// Decodes an icon file and brings the icon to a square of `size` pixels.
pub fn decode_and_resize(file: &Vec<u8>, format: IconFormat, size: i32) -> (r: Option<RgbaBitmap>)
    ensures
        match r {
            Some(icon) => icon_in(file@, format, size as int) == Some(icon@),
            None => icon_in(file@, format, size as int) is None,
        },
{
    match decode(file.as_slice(), format) {
        Some(image) => if is_resizable(&image, size) {
            Some(fit(image, size))
        } else {
            None
        },
        None => None,
    }
}

/// The file of the application's desktop entry.
pub open spec fn desktop_file(app_id: Seq<char>) -> Seq<char> {
    if text::ends(app_id, ".desktop"@) {
        app_id
    } else {
        app_id + ".desktop"@
    }
}

/// The name of the file with the application's desktop entry.
pub fn desktop_file_name(app_id: &str) -> (name: String)
    ensures
        name@ == desktop_file(app_id@),
{
    let chars = text::chars_of(app_id);
    let suffix = text::chars_of(".desktop");
    if suffix.len() <= chars.len() {
        let tail = text::slice_of(chars.as_slice(), chars.len() - suffix.len(), chars.len());
        if text::chars_eq(tail.as_slice(), suffix.as_slice()) {
            return app_id.to_owned();
        }
    }
    text::join2(app_id, ".desktop")
}

/// A line ends here.
pub open spec fn newline() -> spec_fn(char) -> bool {
    |c: char| c == '\n'
}

/// The first icon named in the `[Desktop Entry]` group of the lines;
/// `in_entry` says whether that group has begun. An empty name counts as
/// none.
pub open spec fn icon_named(lines: Seq<Seq<char>>, in_entry: bool) -> Option<Seq<char>>
    decreases lines.len(),
{
    if lines.len() == 0 {
        None
    } else {
        let line = text::trimmed(lines[0]);
        if text::begins(line, "["@) {
            icon_named(lines.drop_first(), line == "[Desktop Entry]"@)
        } else if in_entry && text::begins(line, "Icon="@) {
            if line.len() == 5 {
                None
            } else {
                Some(line.subrange(5, line.len() as int))
            }
        } else {
            icon_named(lines.drop_first(), in_entry)
        }
    }
}

/// The icon that a desktop entry names.
pub fn desktop_entry_icon(contents: &str) -> (icon: Option<String>)
    ensures
        text::option(icon) == icon_named(text::split(contents@, newline()), false),
{
    let chars = text::chars_of(contents);
    let lines = text::split_on(chars.as_slice(), '\n', '\n');
    let ghost all = text::split(contents@, newline());
    proof {
        assert((|c: char| c == '\n' || c == '\n') =~= newline());
        reveal_strlit("Icon=");
        assert("Icon="@.len() == 5);
        assert(all.skip(0) =~= all);
    }
    let mut in_entry = false;
    for i in 0..lines.len()
        invariant
            all == text::views(lines@),
            all == text::split(contents@, newline()),
            "Icon="@.len() == 5,
            icon_named(all, false) == icon_named(all.skip(i as int), in_entry),
    {
        assert(all.skip(i as int)[0] == lines@[i as int]@);
        assert(all.skip(i as int).drop_first() =~= all.skip(i + 1));
        let line = text::trim(lines[i].as_slice());
        if text::starts_with(line.as_slice(), "[") {
            in_entry = text::chars_are(line.as_slice(), "[Desktop Entry]");
        } else if in_entry && text::starts_with(line.as_slice(), "Icon=") {
            if line.len() == 5 {
                return None;
            }
            let value = text::slice_of(line.as_slice(), 5, line.len());
            return Some(text::string_of(value.as_slice()));
        }
    }
    assert(all.skip(lines@.len() as int).len() == 0);
    None
}

/// The format of an icon file, by its extension.
pub open spec fn format_of(path: Seq<char>) -> Option<IconFormat> {
    match paths::extension(path) {
        Some(extension) => {
            let extension = text::lowercased(extension);
            if extension == "png"@ {
                Some(IconFormat::Png)
            } else if extension == "jpg"@ || extension == "jpeg"@ {
                Some(IconFormat::Jpeg)
            } else {
                None
            }
        },
        None => None,
    }
}

/// The format of an icon file, by its extension.
pub fn icon_format(path: &str) -> (format: Option<IconFormat>)
    ensures
        format == format_of(path@),
{
    match paths::name_in(path) {
        Some(name) => match paths::dot_in(&name) {
            Some(at) => if at > 0 {
                let count: usize = name.len();
                let part = text::slice_of(name.as_slice(), at + 1, count);
                assert(part@ =~= name@.skip(at + 1));
                let extension = text::lowercase(part.as_slice());
                if text::chars_are(extension.as_slice(), "png") {
                    Some(IconFormat::Png)
                } else if text::chars_are(extension.as_slice(), "jpg") || text::chars_are(
                    extension.as_slice(),
                    "jpeg",
                ) {
                    Some(IconFormat::Jpeg)
                } else {
                    None
                }
            } else {
                None
            },
            None => None,
        },
        None => None,
    }
}

/// Whether the file is an icon that can be decoded.
pub fn is_raster_icon(path: &str) -> (r: bool)
    ensures
        r == (format_of(path@) is Some),
{
    icon_format(path).is_some()
}

/// Where an icon was found.
#[derive(Debug)]
pub struct IndexedIcon {
    /// The name of the file without its extension, in lower case.
    pub name: String,
    pub path: String,
}

/// The icon files that were found, by name.
#[derive(Debug)]
pub struct IconIndex {
    pub icons: Vec<IndexedIcon>,
}

/// An indexed icon: its name and its path.
pub open spec fn indexed(values: Seq<IndexedIcon>) -> Seq<(Seq<char>, Seq<char>)> {
    values.map_values(|icon: IndexedIcon| (icon.name@, icon.path@))
}

/// The path under a name.
pub open spec fn path_of(icons: Seq<(Seq<char>, Seq<char>)>, name: Seq<char>) -> Option<Seq<char>>
    decreases icons.len(),
{
    if icons.len() == 0 {
        None
    } else if icons[0].0 == name {
        Some(icons[0].1)
    } else {
        path_of(icons.drop_first(), name)
    }
}

/// The name under which a file is indexed; only icons that can be decoded
/// are.
pub open spec fn index_name(path: Seq<char>) -> Option<Seq<char>> {
    if format_of(path) is Some {
        match paths::stem(path) {
            Some(name) => Some(text::lowercased(name)),
            None => None,
        }
    } else {
        None
    }
}

/// The index after a file was found; the first file of a name stays.
pub open spec fn with_file(icons: Seq<(Seq<char>, Seq<char>)>, path: Seq<char>) -> Seq<
    (Seq<char>, Seq<char>),
> {
    match index_name(path) {
        Some(name) => if path_of(icons, name) is None {
            icons.push((name, path))
        } else {
            icons
        },
        None => icons,
    }
}

/// The index of the files, in the order in which they were found.
pub open spec fn index_of(files: Seq<Seq<char>>) -> Seq<(Seq<char>, Seq<char>)>
    decreases files.len(),
{
    if files.len() == 0 {
        Seq::empty()
    } else {
        with_file(index_of(files.drop_last()), files.last())
    }
}

impl IconIndex {
    fn position(&self, name: &Vec<char>) -> (place: Option<usize>)
        ensures
            match place {
                Some(i) => i < self.icons@.len() && path_of(indexed(self.icons@), name@) == Some(
                    self.icons@[i as int].path@,
                ),
                None => path_of(indexed(self.icons@), name@) is None,
            },
    {
        let ghost all = indexed(self.icons@);
        assert(all.skip(0) =~= all);
        for i in 0..self.icons.len()
            invariant
                all == indexed(self.icons@),
                path_of(all, name@) == path_of(all.skip(i as int), name@),
        {
            assert(all.skip(i as int)[0] == (self.icons@[i as int].name@, self.icons@[i as int].path@));
            assert(all.skip(i as int).drop_first() =~= all.skip(i + 1));
            if text::chars_are(name.as_slice(), self.icons[i].name.as_str()) {
                return Some(i);
            }
        }
        assert(all.skip(self.icons@.len() as int).len() == 0);
        None
    }

    /// Indexes the files that were found, in that order.
    pub fn collect(files: &Vec<String>) -> (index: IconIndex)
        ensures
            indexed(index.icons@) == index_of(text::strings(files@)),
    {
        let mut index = IconIndex { icons: Vec::new() };
        let ghost all = text::strings(files@);
        assert(indexed(index.icons@) =~= index_of(all.take(0)));
        for i in 0..files.len()
            invariant
                all == text::strings(files@),
                indexed(index.icons@) == index_of(all.take(i as int)),
        {
            assert(all.take(i + 1).drop_last() =~= all.take(i as int));
            assert(all.take(i + 1).last() == files@[i as int]@);
            if is_raster_icon(files[i].as_str()) {
                match paths::file_stem(files[i].as_str()) {
                    Some(stem) => {
                        let chars = text::chars_of(stem.as_str());
                        let name = text::lowercase(chars.as_slice());
                        if index.position(&name).is_none() {
                            let ghost before = index.icons@;
                            index.icons.push(
                                IndexedIcon {
                                    name: text::string_of(name.as_slice()),
                                    path: files[i].clone(),
                                },
                            );
                            assert(indexed(index.icons@) =~= indexed(before).push(
                                (name@, files@[i as int]@),
                            ));
                        }
                    },
                    None => {},
                }
            }
        }
        assert(all.take(all.len() as int) =~= all);
        index
    }

    /// The file of an icon that was asked for by name or path. `is_file` says
    /// whether there is a file at that path. Only an absolute path is taken
    /// for one.
    pub fn resolve(&self, icon: &str, is_file: bool) -> (path: Option<String>)
        ensures
            text::option(path) == resolved(indexed(self.icons@), icon@, is_file),
    {
        let chars = text::chars_of(icon);
        proof {
            reveal_strlit("/");
            assert("/"@.len() == 1);
        }
        if is_file && text::starts_with(chars.as_slice(), "/") && is_raster_icon(icon) {
            return Some(icon.to_owned());
        }
        let stem = match paths::file_stem(icon) {
            Some(stem) => text::chars_of(stem.as_str()),
            None => chars,
        };
        let name = text::lowercase(stem.as_slice());
        match self.position(&name) {
            Some(i) => Some(self.icons[i].path.clone()),
            None => None,
        }
    }
}

/// The file of an icon that was asked for by name or path.
pub open spec fn resolved(
    icons: Seq<(Seq<char>, Seq<char>)>,
    icon: Seq<char>,
    is_file: bool,
) -> Option<Seq<char>> {
    if is_file && text::begins(icon, "/"@) && format_of(icon) is Some {
        Some(icon)
    } else {
        path_of(
            icons,
            text::lowercased(
                match paths::stem(icon) {
                    Some(name) => name,
                    None => icon,
                },
            ),
        )
    }
}

/// What was found out about the icon of an application at a size; nothing
/// found is kept too, so that it is not looked for again.
#[derive(Debug)]
pub struct CachedIcon {
    pub app_id: String,
    pub size: i32,
    pub icon: Option<RgbaBitmap>,
}

pub struct CachedModel {
    pub app_id: Seq<char>,
    pub size: int,
    pub icon: Option<BitmapModel>,
}

impl View for CachedIcon {
    type V = CachedModel;

    open spec fn view(&self) -> CachedModel {
        CachedModel {
            app_id: self.app_id@,
            size: self.size as int,
            icon: match self.icon {
                Some(icon) => Some(icon@),
                None => None,
            },
        }
    }
}

/// The icons that were looked for.
#[derive(Debug)]
pub struct IconCache {
    pub entries: Vec<CachedIcon>,
}

impl View for IconCache {
    type V = Map<(Seq<char>, int), Option<BitmapModel>>;

    open spec fn view(&self) -> Map<(Seq<char>, int), Option<BitmapModel>> {
        cached(self.entries@)
    }
}

/// What the entries say of each application and size.
pub open spec fn cached(entries: Seq<CachedIcon>) -> Map<(Seq<char>, int), Option<BitmapModel>>
    decreases entries.len(),
{
    if entries.len() == 0 {
        Map::empty()
    } else {
        let entry = entries.last()@;
        cached(entries.drop_last()).insert((entry.app_id, entry.size), entry.icon)
    }
}

impl Default for IconCache {
    fn default() -> (r: Self)
        ensures
            r@ == Map::<(Seq<char>, int), Option<BitmapModel>>::empty(),
    {
        IconCache { entries: Vec::new() }
    }
}

impl IconCache {
    fn position(&self, app_id: &str, size: i32) -> (place: Option<usize>)
        ensures
            match place {
                Some(i) => {
                    &&& i < self.entries@.len()
                    &&& self@.dom().contains((app_id@, size as int))
                    &&& self@[(app_id@, size as int)] == self.entries@[i as int]@.icon
                },
                None => !self@.dom().contains((app_id@, size as int)),
            },
    {
        let ghost all = self.entries@;
        let ghost key = (app_id@, size as int);
        let mut n: usize = self.entries.len();
        assert(all.take(n as int) =~= all);
        while n > 0
            invariant
                all == self.entries@,
                key == (app_id@, size as int),
                n <= all.len(),
                self@.dom().contains(key) == cached(all.take(n as int)).dom().contains(key),
                self@.dom().contains(key) ==> self@[key] == cached(all.take(n as int))[key],
            decreases n,
        {
            assert(all.take(n as int).last() == all[n - 1]);
            assert(all.take(n as int).drop_last() =~= all.take(n - 1));
            let entry = &self.entries[n - 1];
            if entry.size == size && text::text_eq(entry.app_id.as_str(), app_id) {
                return Some(n - 1);
            }
            n = n - 1;
        }
        assert(all.take(0).len() == 0);
        None
    }

    /// Whether the icon was looked for before.
    pub fn is_known(&self, app_id: &str, size: i32) -> (r: bool)
        ensures
            r == self@.dom().contains((app_id@, size as int)),
    {
        self.position(app_id, size).is_some()
    }

    /// The icon, if it was looked for and found.
    pub fn get(&self, app_id: &str, size: i32) -> (icon: Option<&RgbaBitmap>)
        ensures
            match icon {
                Some(icon) => self@.dom().contains((app_id@, size as int)) && self@[(
                    app_id@,
                    size as int,
                )] == Some(icon@),
                None => !self@.dom().contains((app_id@, size as int)) || self@[(
                    app_id@,
                    size as int,
                )] is None,
            },
    {
        match self.position(app_id, size) {
            Some(i) => self.entries[i].icon.as_ref(),
            None => None,
        }
    }

    /// Keeps what was found for the application at the size.
    pub fn insert(&mut self, app_id: &str, size: i32, icon: Option<RgbaBitmap>)
        ensures
            final(self)@ == old(self)@.insert(
                (app_id@, size as int),
                match icon {
                    Some(icon) => Some(icon@),
                    None => None,
                },
            ),
    {
        let ghost before = self.entries@;
        self.entries.push(CachedIcon { app_id: app_id.to_owned(), size, icon });
        assert(self.entries@.drop_last() =~= before);
    }
}

/// A search path is cut here.
pub open spec fn colon() -> spec_fn(char) -> bool {
    |c: char| c == ':'
}

/// The directories with data files, the user's own first.
pub open spec fn data_directories(
    data_home: Option<Seq<char>>,
    home: Option<Seq<char>>,
    data_dirs: Option<Seq<char>>,
) -> Seq<Seq<char>> {
    let own = match data_home {
        Some(directory) => seq![directory],
        None => match home {
            Some(directory) => seq![paths::below(directory, ".local/share"@)],
            None => Seq::empty(),
        },
    };
    own + text::split(
        match data_dirs {
            Some(directories) => directories,
            None => "/usr/local/share:/usr/share"@,
        },
        colon(),
    )
}

/// The directories with data files, out of the variables `XDG_DATA_HOME`,
/// `HOME` and `XDG_DATA_DIRS`.
pub fn xdg_data_directories(
    data_home: &Option<String>,
    home: &Option<String>,
    data_dirs: &Option<String>,
) -> (directories: Vec<String>)
    ensures
        text::strings(directories@) == data_directories(
            text::option(*data_home),
            text::option(*home),
            text::option(*data_dirs),
        ),
{
    let mut directories: Vec<String> = Vec::new();
    match data_home {
        Some(directory) => {
            directories.push(directory.clone());
        },
        None => match home {
            Some(directory) => {
                directories.push(paths::join_path(directory.as_str(), ".local/share"));
            },
            None => {},
        },
    }
    let ghost own = text::strings(directories@);
    assert(own =~= match *data_home {
        Some(directory) => seq![directory@],
        None => match *home {
            Some(directory) => seq![paths::below(directory@, ".local/share"@)],
            None => Seq::empty(),
        },
    });
    let chars = match data_dirs {
        Some(list) => text::chars_of(list.as_str()),
        None => text::chars_of("/usr/local/share:/usr/share"),
    };
    let pieces = text::split_on(chars.as_slice(), ':', ':');
    let ghost all = text::views(pieces@);
    assert((|c: char| c == ':' || c == ':') =~= colon());
    assert(own + all.take(0) =~= own);
    for i in 0..pieces.len()
        invariant
            all == text::views(pieces@),
            text::strings(directories@) == own + all.take(i as int),
    {
        let piece = text::string_of(pieces[i].as_slice());
        let ghost before = text::strings(directories@);
        let ghost name = piece@;
        directories.push(piece);
        assert(text::strings(directories@) =~= before.push(name));
        assert(own + all.take(i + 1) =~= (own + all.take(i as int)).push(all[i as int]));
    }
    assert(all.take(all.len() as int) =~= all);
    directories
}

proof fn lemma_index_keeps_the_first(icons: Seq<(Seq<char>, Seq<char>)>, path: Seq<char>, name: Seq<
    char,
>)
    ensures
        path_of(icons, name) is Some ==> path_of(with_file(icons, path), name) == path_of(
            icons,
            name,
        ),
{
    match index_name(path) {
        Some(new) => {
            lemma_path_of_push(icons, (new, path), name);
        },
        None => {},
    }
}

proof fn lemma_path_of_push(icons: Seq<(Seq<char>, Seq<char>)>, more: (Seq<char>, Seq<char>), name: Seq<
    char,
>)
    ensures
        path_of(icons.push(more), name) == (match path_of(icons, name) {
            Some(path) => Some(path),
            None => if more.0 == name {
                Some(more.1)
            } else {
                None
            },
        }),
    decreases icons.len(),
{
    if icons.len() == 0 {
        assert(icons.push(more)[0] == more);
        assert(icons.push(more).drop_first() =~= icons);
        assert(path_of(icons.push(more).drop_first(), name) is None);
    } else {
        assert(icons.push(more)[0] == icons[0]);
        assert(icons.push(more).drop_first() =~= icons.drop_first().push(more));
        lemma_path_of_push(icons.drop_first(), more, name);
    }
}

/// A file that is found later never takes the place of one that was found
/// before it.
pub proof fn the_first_icon_of_a_name_stays(files: Seq<Seq<char>>, more: Seq<Seq<char>>, name: Seq<
    char,
>)
    ensures
        path_of(index_of(files), name) is Some ==> path_of(index_of(files + more), name)
            == path_of(index_of(files), name),
    decreases more.len(),
{
    if more.len() == 0 {
        assert(files + more =~= files);
    } else {
        the_first_icon_of_a_name_stays(files, more.drop_last(), name);
        assert((files + more).drop_last() =~= files + more.drop_last());
        assert((files + more).last() == more.last());
        lemma_index_keeps_the_first(index_of(files + more.drop_last()), more.last(), name);
    }
}

} // verus!
