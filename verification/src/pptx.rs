//! Presentation packages (PPTX). Each slide becomes a page, in the order that the
//! presentation part declares.

use vstd::prelude::*;
use vstd::slice::slice_subrange;
use vstd::string::StringSliceAdditionalSpecFns;
use vstd::utf8::encode_utf8;
use crate::archive::text_entry;
use crate::archive::zip_check;
use crate::archive::zip_entry;
use crate::archive::zip_open_error;
use crate::archive::zip_read;
use crate::archive::zip_read_text;
use crate::archive::ZipEntry;
use crate::archive::ZipEntryView;
use crate::document::Dimensions;
use crate::document::Document;
use crate::document::DocumentView;
use crate::document::ImageResource;
use crate::document::ImageResourceView;
use crate::document::Page;
use crate::document::pages_rise;
use crate::document::PageView;
use crate::docx::make_package_metadata;
use crate::docx::next_page_number;
use crate::docx::package_metadata;
use crate::docx::page_number;
use crate::error::Error;
use crate::error::ErrorView;
use crate::format::Format;
use crate::format::FormatView;
use crate::format::pptx_format;
use crate::metadata::custom_insert;
use crate::metadata::Metadata;
use crate::metadata::MetadataValue;
use crate::metadata::MetadataValueView;
use crate::metadata::MetadataView;
use crate::parser::ParseContext;
use crate::parser::Parser;
use crate::parser::ParserFeature;
use crate::parser::ParserMetadata;
use crate::parser::ParserMetadataView;
use crate::relationships::rel_get;
use crate::relationships::rel_of_type_from;
use crate::relationships::Relationships;
use crate::relationships::RelationshipView;
use crate::relationships::rels_of_events;
use crate::shapes::after_last_slash;
use crate::shapes::number_attr;
use crate::shapes::or_keep;
use crate::shapes::read_number_attr;
use crate::slides::slide_page;
use crate::slides::SlideParser;
use crate::strmap::map_insert;
use crate::strmap::StrEntryView;
use crate::strmap::StrMap;
use crate::text::attr_value;
use crate::text::bytes_eq;
use crate::text::concat;
use crate::text::ends_with;
use crate::text::lit;
use crate::text::slashes;
use crate::text::spec_ends_with;
use crate::text::spec_slashes;
use crate::text::str_eq;
use crate::text::utf8_lossy;
use crate::theme::parse_theme;
use crate::theme::Theme;
use crate::theme::theme_of_events;
use crate::theme::ThemeView;
use crate::xml::attr_last;
use crate::xml::check_part;
use crate::xml::last_attr;
use crate::xml::part_fault;
use crate::xml::read_events;
use crate::xml::result_view;
use crate::xml::xml_events;
use crate::xml::XmlEvent;
use crate::xml::XmlEventKind;
use crate::xml::XmlEventView;

verus! {

broadcast use crate::text::lemma_bytes_deep_view;

/// Width of a slide where the presentation gives none, in EMU (960 points).
pub const DEFAULT_SLIDE_WIDTH: i64 = 12192000;

/// Height of a slide where the presentation gives none, in EMU (540 points).
pub const DEFAULT_SLIDE_HEIGHT: i64 = 6858000;

/// The relationship type of a theme part.
pub open spec fn theme_type() -> Seq<char> {
    "http://schemas.openxmlformats.org/officeDocument/2006/relationships/theme"@
}

/// The slide size where the presentation gives none.
pub open spec fn default_slide_size() -> Dimensions {
    Dimensions { width: DEFAULT_SLIDE_WIDTH, height: DEFAULT_SLIDE_HEIGHT }
}

/// The relationship ids of the slides, in declared order, and the slide size, reading a
/// presentation part from `pos`. An error event fails the part.
pub open spec fn presentation_from(
    events: Seq<XmlEventView>,
    pos: int,
    rids: Seq<Seq<char>>,
    size: Dimensions,
) -> Result<(Seq<Seq<char>>, Dimensions), ErrorView>
    decreases events.len() - pos,
{
    if pos < 0 || pos >= events.len() {
        Ok((rids, size))
    } else {
        let ev = events[pos];
        if ev.kind == XmlEventKind::Error {
            Err(ErrorView::ParseError("XML error in presentation.xml: "@ + ev.message))
        } else if XmlEvent::spec_opens(ev) && ev.name == lit("p:sldId") {
            presentation_from(
                events,
                pos + 1,
                match attr_last(ev.attrs, lit("r:id")) {
                    Some(v) => rids.push(utf8_lossy(v)),
                    None => rids,
                },
                size,
            )
        } else if XmlEvent::spec_opens(ev) && ev.name == lit("p:sldSz") {
            presentation_from(
                events,
                pos + 1,
                rids,
                Dimensions {
                    width: or_keep(number_attr(ev.attrs, lit("cx")), DEFAULT_SLIDE_WIDTH),
                    height: or_keep(number_attr(ev.attrs, lit("cy")), DEFAULT_SLIDE_HEIGHT),
                },
            )
        } else {
            presentation_from(events, pos + 1, rids, size)
        }
    }
}

/// What a presentation part declares, given by its events.
pub open spec fn presentation_of_events(events: Seq<XmlEventView>) -> Result<
    (Seq<Seq<char>>, Dimensions),
    ErrorView,
> {
    presentation_from(events, 0, Seq::empty(), default_slide_size())
}

/// The view of the result of reading a presentation part.
pub open spec fn presentation_view(r: Result<(Vec<String>, Dimensions), Error>) -> Result<
    (Seq<Seq<char>>, Dimensions),
    ErrorView,
> {
    match r {
        Ok(found) => Ok((found.0.deep_view(), found.1)),
        Err(e) => Err(e.deep_view()),
    }
}

/// The bytes of `s` split at each `/`, reading from `from` with the part `cur` begun.
pub open spec fn split_from(s: Seq<u8>, from: int, cur: Seq<u8>, parts: Seq<Seq<u8>>) -> Seq<
    Seq<u8>,
>
    decreases s.len() - from,
{
    if from < 0 || from >= s.len() {
        parts.push(cur)
    } else if s[from] == 0x2F {
        split_from(s, from + 1, Seq::empty(), parts.push(cur))
    } else {
        split_from(s, from + 1, cur.push(s[from]), parts)
    }
}

/// The parts of a path: what stands between its slashes.
pub open spec fn path_parts(s: Seq<u8>) -> Seq<Seq<u8>> {
    split_from(s, 0, Seq::empty(), Seq::empty())
}

/// The parts of a directory after the parts of a relative target, from index `from` on, are
/// applied: `..` drops the last part, `.` changes nothing, any other part is added.
pub open spec fn apply_parts(base: Seq<Seq<u8>>, target: Seq<Seq<u8>>, from: int) -> Seq<Seq<u8>>
    decreases target.len() - from,
{
    if from < 0 || from >= target.len() {
        base
    } else if target[from] == lit("..") {
        apply_parts(
            if base.len() > 0 {
                base.drop_last()
            } else {
                base
            },
            target,
            from + 1,
        )
    } else if target[from] == lit(".") {
        apply_parts(base, target, from + 1)
    } else {
        apply_parts(base.push(target[from]), target, from + 1)
    }
}

/// The parts from index `from` on, joined with slashes behind `acc`.
pub open spec fn join_from(parts: Seq<Seq<u8>>, from: int, acc: Seq<u8>) -> Seq<u8>
    decreases parts.len() - from,
{
    if from < 0 || from >= parts.len() {
        acc
    } else if from == 0 {
        join_from(parts, from + 1, acc + parts[from])
    } else {
        join_from(parts, from + 1, acc + seq![0x2Fu8] + parts[from])
    }
}

/// The path of `target` as seen from the directory `dir`, with backslashes as slashes.
/// Targets are resolved per referring part, never globally.
pub open spec fn resolve_path(dir: Seq<u8>, target: Seq<u8>) -> Seq<u8> {
    spec_slashes(
        join_from(apply_parts(path_parts(dir), path_parts(target), 0), 0, Seq::empty()),
    )
}

fn split_path(s: &[u8]) -> (r: Vec<Vec<u8>>)
    ensures
        r.deep_view() == path_parts(s@),
{
    let mut parts: Vec<Vec<u8>> = Vec::new();
    let mut cur: Vec<u8> = Vec::new();
    let mut i: usize = 0;
    assert(parts.deep_view() =~= Seq::<Seq<u8>>::empty());
    while i < s.len()
        invariant
            i <= s.len(),
            split_from(s@, i as int, cur@, parts.deep_view()) == path_parts(s@),
        decreases s.len() - i,
    {
        let ghost before = parts.deep_view();
        if s[i] == 0x2F {
            let mut done: Vec<u8> = Vec::new();
            std::mem::swap(&mut done, &mut cur);
            parts.push(done);
            assert(parts.deep_view() =~= before.push(done@));
        } else {
            cur.push(s[i]);
        }
        i += 1;
    }
    parts.push(cur);
    parts
}

fn join_parts(parts: &Vec<Vec<u8>>) -> (r: Vec<u8>)
    ensures
        r@ == join_from(parts.deep_view(), 0, Seq::empty()),
{
    let mut out: Vec<u8> = Vec::new();
    let mut i: usize = 0;
    while i < parts.len()
        invariant
            i <= parts.len(),
            join_from(parts.deep_view(), i as int, out@) == join_from(
                parts.deep_view(),
                0,
                Seq::empty(),
            ),
        decreases parts.len() - i,
    {
        let ghost before = out@;
        if i != 0 {
            out.push(0x2F);
        }
        let part = &parts[i];
        let ghost start = out@;
        let mut k: usize = 0;
        while k < part.len()
            invariant
                k <= part.len(),
                out@ == start + part@.take(k as int),
            decreases part.len() - k,
        {
            out.push(part[k]);
            k += 1;
        }
        proof {
            if i != 0 {
                assert(out@ =~= before + seq![0x2Fu8] + part@);
            } else {
                assert(out@ =~= before + part@);
            }
        }
        i += 1;
    }
    out
}

/// Resolves the relative `target` against the directory `dir`.
pub fn resolve_relative(dir: &[u8], target: &[u8]) -> (r: Vec<u8>)
    ensures
        r@ == resolve_path(dir@, target@),
{
    let mut base = split_path(dir);
    let steps = split_path(target);
    let mut i: usize = 0;
    while i < steps.len()
        invariant
            i <= steps.len(),
            steps.deep_view() == path_parts(target@),
            apply_parts(base.deep_view(), steps.deep_view(), i as int) == apply_parts(
                path_parts(dir@),
                path_parts(target@),
                0,
            ),
        decreases steps.len() - i,
    {
        let ghost before = base.deep_view();
        if bytes_eq(steps[i].as_slice(), "..".as_bytes()) {
            if base.len() > 0 {
                base.pop();
                assert(base.deep_view() =~= before.drop_last());
            }
        } else if !bytes_eq(steps[i].as_slice(), ".".as_bytes()) {
            let part = crate::text::bytes_to_vec(steps[i].as_slice());
            base.push(part);
            assert(base.deep_view() =~= before.push(part@));
        }
        i += 1;
    }
    let joined = join_parts(&base);
    slashes(joined.as_slice())
}

/// Reads a presentation part, given by its events.
pub fn parse_presentation_events(events: &Vec<XmlEvent>) -> (r: Result<
    (Vec<String>, Dimensions),
    Error,
>)
    ensures
        presentation_view(r) == presentation_of_events(events.deep_view()),
{
    let mut rids: Vec<String> = Vec::new();
    let mut size = Dimensions { width: DEFAULT_SLIDE_WIDTH, height: DEFAULT_SLIDE_HEIGHT };
    let mut i: usize = 0;
    assert(rids.deep_view() =~= Seq::<Seq<char>>::empty());
    while i < events.len()
        invariant
            i <= events.len(),
            presentation_from(events.deep_view(), i as int, rids.deep_view(), size)
                == presentation_of_events(events.deep_view()),
        decreases events.len() - i,
    {
        let ev = &events[i];
        if ev.kind == XmlEventKind::Error {
            return Err(Error::parse_with("XML error in presentation.xml: ", ev.message.as_str()));
        }
        if ev.opens() && ev.named("p:sldId") {
            match last_attr(&ev.attrs, "r:id") {
                Some(v) => {
                    let ghost before = rids.deep_view();
                    let rid = attr_value(v.as_slice());
                    rids.push(rid);
                    assert(rids.deep_view() =~= before.push(rid@));
                },
                None => {},
            }
        } else if ev.opens() && ev.named("p:sldSz") {
            let width = match read_number_attr(&ev.attrs, "cx") {
                Some(v) => v,
                None => DEFAULT_SLIDE_WIDTH,
            };
            let height = match read_number_attr(&ev.attrs, "cy") {
                Some(v) => v,
                None => DEFAULT_SLIDE_HEIGHT,
            };
            size = Dimensions { width, height };
        }
        i += 1;
    }
    Ok((rids, size))
}

/// The width and height in pixels that an image's header declares, or `None` where its
/// first bytes name no format that the decoders know or the header does not read.
pub uninterp spec fn image_dimensions(data: Seq<u8>) -> Option<(u32, u32)>;

/// Reads the pixel size of an image from its header. Calls `image::guess_format` on the
/// bytes, then `ImageReader::with_format` and `ImageReader::into_dimensions`: the built-in
/// signatures and decoders alone decide, and `None` comes where one of the calls fails.
#[verifier::external_body]
fn image_size(data: &[u8]) -> (r: Option<(u32, u32)>)
    ensures
        r == image_dimensions(data@),
{
    let format = image::guess_format(data).ok()?;
    image::ImageReader::with_format(std::io::Cursor::new(data), format).into_dimensions().ok()
}

/// The size in pixels that stands for an image: what its header declares, or `(0, 0)` where
/// that is not to be had.
pub open spec fn pixel_size(data: Seq<u8>) -> (u32, u32) {
    match image_dimensions(data) {
        Some(size) => size,
        None => (0u32, 0u32),
    }
}

fn pixel_size_of(data: &[u8]) -> (r: (u32, u32))
    ensures
        r == pixel_size(data@),
{
    match image_size(data) {
        Some(size) => size,
        None => (0, 0),
    }
}

/// The MIME type that the ending of a path names, letter case observed.
pub open spec fn suffix_mime(path: Seq<u8>) -> Seq<char> {
    if spec_ends_with(path, lit(".png")) {
        "image/png"@
    } else if spec_ends_with(path, lit(".jpg")) || spec_ends_with(path, lit(".jpeg")) {
        "image/jpeg"@
    } else if spec_ends_with(path, lit(".gif")) {
        "image/gif"@
    } else if spec_ends_with(path, lit(".svg")) {
        "image/svg+xml"@
    } else {
        "application/octet-stream"@
    }
}

/// Whether an image of this path has a size in pixels to read.
pub open spec fn is_raster(path: Seq<u8>) -> bool {
    spec_ends_with(path, lit(".png")) || spec_ends_with(path, lit(".jpg")) || spec_ends_with(
        path,
        lit(".jpeg"),
    ) || spec_ends_with(path, lit(".gif")) || !spec_ends_with(path, lit(".svg"))
}

/// The resource of an image: its content, the type that its path names, and its size in
/// pixels, which is `(0, 0)` for vector images.
pub open spec fn image_resource(id: Seq<char>, path: Seq<u8>, bytes: Seq<u8>) -> ImageResourceView {
    let size = if is_raster(path) {
        pixel_size(bytes)
    } else {
        (0u32, 0u32)
    };
    ImageResourceView {
        id,
        mime_type: suffix_mime(path),
        data: Some(bytes),
        url: None,
        width: size.0,
        height: size.1,
    }
}

fn make_image_resource(id: String, path: &[u8], bytes: Vec<u8>) -> (r: ImageResource)
    ensures
        r.deep_view() == image_resource(id@, path@, bytes@),
{
    let png = ends_with(path, ".png".as_bytes());
    let jpeg = ends_with(path, ".jpg".as_bytes()) || ends_with(path, ".jpeg".as_bytes());
    let gif = ends_with(path, ".gif".as_bytes());
    let svg = ends_with(path, ".svg".as_bytes());
    let mime = if png {
        "image/png"
    } else if jpeg {
        "image/jpeg"
    } else if gif {
        "image/gif"
    } else if svg {
        "image/svg+xml"
    } else {
        "application/octet-stream"
    };
    let size = if png || jpeg || gif || !svg {
        pixel_size_of(bytes.as_slice())
    } else {
        (0, 0)
    };
    ImageResource {
        id,
        mime_type: mime.to_owned(),
        data: Some(bytes),
        url: None,
        width: size.0,
        height: size.1,
    }
}

/// Whether an image at or behind index `from` has the id `id`.
pub open spec fn has_image_from(images: Seq<ImageResourceView>, id: Seq<char>, from: int) -> bool
    decreases images.len() - from,
{
    if from < 0 || from >= images.len() {
        false
    } else if images[from].id == id {
        true
    } else {
        has_image_from(images, id, from + 1)
    }
}

fn has_image(images: &Vec<ImageResource>, id: &str) -> (r: bool)
    ensures
        r == has_image_from(images.deep_view(), id@, 0),
{
    let mut i: usize = 0;
    while i < images.len()
        invariant
            i <= images.len(),
            has_image_from(images.deep_view(), id@, i as int) == has_image_from(
                images.deep_view(),
                id@,
                0,
            ),
        decreases images.len() - i,
    {
        if str_eq(images[i].id.as_str(), id) {
            return true;
        }
        i += 1;
    }
    false
}

/// The images after the targets of a slide's relationships, from index `from` on, are
/// loaded: each target that the archive holds, seen from the slide's directory, becomes a
/// resource under the target's own text, unless a resource of that id is there already.
pub open spec fn images_from(
    data: Seq<u8>,
    dir: Seq<u8>,
    rels: Seq<StrEntryView>,
    from: int,
    images: Seq<ImageResourceView>,
) -> Seq<ImageResourceView>
    decreases rels.len() - from,
{
    if from < 0 || from >= rels.len() {
        images
    } else {
        let target = rels[from].value;
        let path = resolve_path(dir, encode_utf8(target));
        if has_image_from(images, target, 0) {
            images_from(data, dir, rels, from + 1, images)
        } else {
            match zip_entry(data, utf8_lossy(path)) {
                ZipEntryView::Data(bytes) => images_from(
                    data,
                    dir,
                    rels,
                    from + 1,
                    images.push(image_resource(target, path, bytes)),
                ),
                _ => images_from(data, dir, rels, from + 1, images),
            }
        }
    }
}

fn load_images(data: &[u8], dir: &[u8], rels: &StrMap, images: &mut Vec<ImageResource>)
    ensures
        final(images).deep_view() == images_from(
            data@,
            dir@,
            rels.deep_view(),
            0,
            old(images).deep_view(),
        ),
{
    let mut i: usize = 0;
    while i < rels.len()
        invariant
            i <= rels.deep_view().len(),
            images_from(data@, dir@, rels.deep_view(), i as int, images.deep_view())
                == images_from(data@, dir@, rels.deep_view(), 0, old(images).deep_view()),
        decreases rels.deep_view().len() - i,
    {
        let target = &rels.entry(i).value;
        if !has_image(images, target.as_str()) {
            let path = resolve_relative(dir, target.as_str().as_bytes());
            let name = attr_value(path.as_slice());
            match zip_read(data, name.as_str()) {
                ZipEntry::Data(bytes) => {
                    let ghost before = images.deep_view();
                    let resource = make_image_resource(target.clone(), path.as_slice(), bytes);
                    images.push(resource);
                    assert(images.deep_view() =~= before.push(resource.deep_view()));
                },
                _ => {},
            }
        }
        i += 1;
    }
}

/// The relationships from index `from` on, entered into a map from id to target.
pub open spec fn targets_from(rels: Seq<RelationshipView>, from: int, acc: Seq<StrEntryView>) -> Seq<
    StrEntryView,
>
    decreases rels.len() - from,
{
    if from < 0 || from >= rels.len() {
        acc
    } else {
        targets_from(rels, from + 1, map_insert(acc, rels[from].id, rels[from].target))
    }
}

/// The map from id to target of a relationships table.
pub fn targets_of(rels: &Relationships) -> (r: StrMap)
    ensures
        r.deep_view() == targets_from(rels.deep_view(), 0, Seq::empty()),
{
    let mut map = StrMap::new();
    let mut i: usize = 0;
    while i < rels.len()
        invariant
            i <= rels.deep_view().len(),
            targets_from(rels.deep_view(), i as int, map.deep_view()) == targets_from(
                rels.deep_view(),
                0,
                Seq::empty(),
            ),
        decreases rels.deep_view().len() - i,
    {
        let rel = rels.entry(i);
        map.insert(rel.id.clone(), rel.target.clone());
        i += 1;
    }
    map
}

/// The directory and the file name of an entry name, where it holds a slash.
pub open spec fn split_entry(name: Seq<u8>) -> Option<(Seq<u8>, Seq<u8>)> {
    let k = after_last_slash(name, name.len() as int);
    if k <= 0 {
        None
    } else {
        Some((name.take(k - 1), name.skip(k)))
    }
}

fn split_entry_name(name: &[u8]) -> (r: Option<(&[u8], &[u8])>)
    ensures
        match r {
            Some(parts) => split_entry(name@) == Some((parts.0@, parts.1@)),
            None => split_entry(name@) is None,
        },
{
    let mut k: usize = name.len();
    while k > 0
        invariant
            k <= name.len(),
            after_last_slash(name@, k as int) == after_last_slash(name@, name.len() as int),
        decreases k,
    {
        if name[k - 1] == 0x2F {
            let dir = slice_subrange(name, 0, k - 1);
            let file = slice_subrange(name, k, name.len());
            return Some((dir, file));
        }
        k -= 1;
    }
    None
}

/// The name of the relationships part of the entry with the given directory and file name.
pub open spec fn rels_entry_name(dir: Seq<u8>, file: Seq<u8>) -> Seq<char> {
    utf8_lossy(dir + lit("/_rels/") + file + lit(".rels"))
}

/// The relationships of a slide, as a map from id to target: empty where the slide has no
/// readable, well-formed relationships part.
pub open spec fn slide_rels_of(data: Seq<u8>, dir: Seq<u8>, file: Seq<u8>) -> Seq<StrEntryView> {
    match text_entry(zip_entry(data, rels_entry_name(dir, file))) {
        ZipEntryView::Data(bytes) => match rels_of_events(xml_events(bytes, true)) {
            Ok(rels) => targets_from(rels, 0, Seq::empty()),
            Err(_) => Seq::empty(),
        },
        _ => Seq::empty(),
    }
}

fn append_bytes(out: &mut Vec<u8>, more: &[u8])
    ensures
        final(out)@ == old(out)@ + more@,
{
    let mut k: usize = 0;
    while k < more.len()
        invariant
            k <= more.len(),
            out@ == old(out)@ + more@.take(k as int),
        decreases more.len() - k,
    {
        out.push(more[k]);
        k += 1;
    }
}

fn load_slide_rels(data: &[u8], dir: &[u8], file: &[u8]) -> (r: StrMap)
    ensures
        r.deep_view() == slide_rels_of(data@, dir@, file@),
{
    let mut path: Vec<u8> = Vec::new();
    append_bytes(&mut path, dir);
    append_bytes(&mut path, "/_rels/".as_bytes());
    append_bytes(&mut path, file);
    append_bytes(&mut path, ".rels".as_bytes());
    let name = attr_value(path.as_slice());
    match zip_read_text(data, name.as_str()) {
        ZipEntry::Data(bytes) => {
            let events = read_events(bytes.as_slice(), true);
            match Relationships::from_events(&events) {
                Ok(rels) => targets_of(&rels),
                Err(_) => StrMap::new(),
            }
        },
        _ => StrMap::new(),
    }
}

/// The entry name of a part that a presentation's relationship targets: the target seen
/// from `ppt/`, with backslashes as slashes.
pub open spec fn part_entry(target: Seq<char>) -> Seq<u8> {
    spec_slashes(encode_utf8("ppt/"@ + target))
}

fn part_entry_of(target: &str) -> (r: Vec<u8>)
    ensures
        r@ == part_entry(target@),
{
    let name = concat("ppt/", target);
    slashes(name.as_str().as_bytes())
}

/// The message of the error that an unreadable slide gives.
pub open spec fn slide_error(name: Seq<char>, why: Seq<char>) -> ErrorView {
    ErrorView::ParseError("Failed to read slide XML "@ + name + ": "@ + why)
}

/// The message of the error that a slide gives whose markup is broken or cut short.
pub open spec fn slide_fault(name: Seq<char>, why: Seq<char>) -> ErrorView {
    ErrorView::ParseError("Failed to parse slide XML "@ + name + ": "@ + why)
}

/// The pages and images after the slides from index `from` on are read. A slide whose
/// relationship does not resolve, whose part is missing or whose part is empty is passed
/// over; a part that cannot be read, or whose markup is broken or cut short, fails the
/// document. A slide's page number is its place in the declared order.
pub open spec fn slides_from(
    data: Seq<u8>,
    rels: Seq<RelationshipView>,
    rids: Seq<Seq<char>>,
    size: Dimensions,
    from: int,
    pages: Seq<PageView>,
    images: Seq<ImageResourceView>,
) -> Result<(Seq<PageView>, Seq<ImageResourceView>), ErrorView>
    decreases rids.len() - from,
{
    if from < 0 || from >= rids.len() {
        Ok((pages, images))
    } else {
        match rel_get(rels, rids[from]) {
            None => slides_from(data, rels, rids, size, from + 1, pages, images),
            Some(rel) => {
                let entry = part_entry(rel.target);
                match text_entry(zip_entry(data, utf8_lossy(entry))) {
                    ZipEntryView::Missing => slides_from(
                        data,
                        rels,
                        rids,
                        size,
                        from + 1,
                        pages,
                        images,
                    ),
                    ZipEntryView::Unreadable(why) => Err(slide_error(utf8_lossy(entry), why)),
                    ZipEntryView::Data(bytes) => if bytes.len() == 0 {
                        slides_from(data, rels, rids, size, from + 1, pages, images)
                    } else if part_fault(xml_events(bytes, true)) is Some {
                        Err(
                            slide_fault(
                                utf8_lossy(entry),
                                part_fault(xml_events(bytes, true))->Some_0,
                            ),
                        )
                    } else {
                        let srels = match split_entry(entry) {
                            Some(parts) => slide_rels_of(data, parts.0, parts.1),
                            None => Seq::empty(),
                        };
                        let loaded = match split_entry(entry) {
                            Some(parts) => images_from(data, parts.0, srels, 0, images),
                            None => images,
                        };
                        slides_from(
                            data,
                            rels,
                            rids,
                            size,
                            from + 1,
                            pages.push(
                                slide_page(
                                    xml_events(bytes, true),
                                    page_number(from as nat),
                                    srels,
                                    size,
                                ),
                            ),
                            loaded,
                        )
                    },
                }
            },
        }
    }
}

/// The view of pages and images, or of the error in their place.
pub open spec fn slides_view(r: Result<(Vec<Page>, Vec<ImageResource>), Error>) -> Result<
    (Seq<PageView>, Seq<ImageResourceView>),
    ErrorView,
> {
    match r {
        Ok(found) => Ok((found.0.deep_view(), found.1.deep_view())),
        Err(e) => Err(e.deep_view()),
    }
}

fn load_slides(data: &[u8], rels: &Relationships, rids: &Vec<String>, size: Dimensions) -> (r:
    Result<(Vec<Page>, Vec<ImageResource>), Error>)
    ensures
        slides_view(r) == slides_from(
            data@,
            rels.deep_view(),
            rids.deep_view(),
            size,
            0,
            Seq::empty(),
            Seq::empty(),
        ),
{
    let mut pages: Vec<Page> = Vec::new();
    let mut images: Vec<ImageResource> = Vec::new();
    assert(pages.deep_view() =~= Seq::<PageView>::empty());
    assert(images.deep_view() =~= Seq::<ImageResourceView>::empty());
    let mut i: usize = 0;
    while i < rids.len()
        invariant
            i <= rids.len(),
            slides_from(
                data@,
                rels.deep_view(),
                rids.deep_view(),
                size,
                i as int,
                pages.deep_view(),
                images.deep_view(),
            ) == slides_from(
                data@,
                rels.deep_view(),
                rids.deep_view(),
                size,
                0,
                Seq::empty(),
                Seq::empty(),
            ),
        decreases rids.len() - i,
    {
        match rels.get(rids[i].as_str()) {
            Some(rel) => {
                let entry = part_entry_of(rel.target.as_str());
                let name = attr_value(entry.as_slice());
                match zip_read_text(data, name.as_str()) {
                    ZipEntry::Missing => {},
                    ZipEntry::Unreadable(why) => {
                        let head = concat("Failed to read slide XML ", name.as_str());
                        let full = concat(head.as_str(), ": ");
                        return Err(Error::parse_with(full.as_str(), why.as_str()));
                    },
                    ZipEntry::Data(bytes) => {
                        if bytes.len() != 0 {
                            let events = read_events(bytes.as_slice(), true);
                            match check_part(&events) {
                                Some(why) => {
                                    let head = concat("Failed to parse slide XML ", name.as_str());
                                    let full = concat(head.as_str(), ": ");
                                    return Err(Error::parse_with(full.as_str(), why.as_str()));
                                },
                                None => {},
                            }
                            let srels = match split_entry_name(entry.as_slice()) {
                                Some(parts) => {
                                    let found = load_slide_rels(data, parts.0, parts.1);
                                    load_images(data, parts.0, &found, &mut images);
                                    found
                                },
                                None => StrMap::new(),
                            };
                            let ghost before = pages.deep_view();
                            let page = SlideParser::parse_events(
                                &events,
                                next_page_number(i),
                                &srels,
                                size,
                            );
                            pages.push(page);
                            assert(pages.deep_view() =~= before.push(page.deep_view()));
                        }
                    },
                }
            },
            None => {},
        }
        i += 1;
    }
    Ok((pages, images))
}

/// The relationships of the presentation part: none where the package has no such part.
pub open spec fn pptx_rels(entry: ZipEntryView) -> Result<Seq<RelationshipView>, ErrorView> {
    match entry {
        ZipEntryView::Data(bytes) => rels_of_events(xml_events(bytes, true)),
        _ => Ok(Seq::empty()),
    }
}

/// The theme of a presentation: that of the first theme relationship, where its part is in
/// the archive and well-formed.
pub open spec fn pptx_theme(data: Seq<u8>, rels: Seq<RelationshipView>) -> Option<ThemeView> {
    let themes = rel_of_type_from(rels, theme_type(), 0);
    if themes.len() == 0 {
        None
    } else {
        match zip_entry(data, utf8_lossy(part_entry(themes[0].target))) {
            ZipEntryView::Data(bytes) => match theme_of_events(xml_events(bytes, true)) {
                Ok(theme) => Some(theme),
                Err(_) => None,
            },
            _ => None,
        }
    }
}

fn load_theme(data: &[u8], rels: &Relationships) -> (r: Option<Theme>)
    ensures
        r.deep_view() == pptx_theme(data@, rels.deep_view()),
{
    let themes = rels.find_by_type(
        "http://schemas.openxmlformats.org/officeDocument/2006/relationships/theme",
    );
    if themes.len() == 0 {
        return None;
    }
    let entry = part_entry_of(themes[0].target.as_str());
    let name = attr_value(entry.as_slice());
    match zip_read(data, name.as_str()) {
        ZipEntry::Data(bytes) => match parse_theme(bytes.as_slice()) {
            Ok(theme) => Some(theme),
            Err(_) => None,
        },
        _ => None,
    }
}

/// A count as a metadata value: itself, or the largest value where it does not fit.
pub open spec fn count_value(n: nat) -> i64 {
    if n <= i64::MAX {
        n as i64
    } else {
        i64::MAX
    }
}

pub fn count_of(n: usize) -> (r: i64)
    ensures
        r == count_value(n as nat),
{
    if n as u128 <= i64::MAX as u128 {
        n as i64
    } else {
        i64::MAX
    }
}

/// The custom properties with the text `value` entered under `key`, where there is a value.
pub open spec fn with_text(
    metadata: MetadataView,
    key: Seq<char>,
    value: Option<Seq<char>>,
) -> MetadataView {
    match value {
        Some(v) => MetadataView {
            custom: custom_insert(metadata.custom, key, MetadataValueView::String(v)),
            ..metadata
        },
        None => metadata,
    }
}

/// The metadata of a parsed presentation: the file name as title, the format, the number
/// of slides read, and the theme's name and fonts where there is a theme.
pub open spec fn pptx_metadata(
    filename: Option<Seq<char>>,
    slides: nat,
    theme: Option<ThemeView>,
) -> MetadataView {
    let base = package_metadata(filename, "PPTX"@);
    let counted = MetadataView {
        custom: custom_insert(
            base.custom,
            "slide_count"@,
            MetadataValueView::Integer(count_value(slides)),
        ),
        ..base
    };
    match theme {
        Some(t) => with_text(
            with_text(
                with_text(counted, "theme_name"@, Some(t.name)),
                "theme_font_major"@,
                t.major_font,
            ),
            "theme_font_minor"@,
            t.minor_font,
        ),
        None => counted,
    }
}

fn add_text(metadata: &mut Metadata, key: &str, value: &Option<String>)
    ensures
        final(metadata).deep_view() == with_text(
            old(metadata).deep_view(),
            key@,
            value.deep_view(),
        ),
{
    match value {
        Some(v) => {
            metadata.add_custom(key, MetadataValue::text(v.as_str()));
        },
        None => {},
    }
}

fn make_pptx_metadata(filename: Option<String>, slides: usize, theme: Option<Theme>) -> (r:
    Metadata)
    ensures
        r.deep_view() == pptx_metadata(filename.deep_view(), slides as nat, theme.deep_view()),
{
    let mut metadata = make_package_metadata(filename, "PPTX");
    metadata.add_custom("slide_count", MetadataValue::Integer(count_of(slides)));
    match theme {
        Some(t) => {
            let name = Some(t.name);
            add_text(&mut metadata, "theme_name", &name);
            add_text(&mut metadata, "theme_font_major", &t.major_font);
            add_text(&mut metadata, "theme_font_minor", &t.minor_font);
        },
        None => {},
    }
    metadata
}

/// The document that a presentation package holds. The package must open as a ZIP archive
/// and hold a readable, well-formed `ppt/presentation.xml`; its relationships part, where
/// there is one, must be readable and well-formed too.
pub open spec fn pptx_document(data: Seq<u8>, filename: Option<Seq<char>>) -> Result<
    DocumentView,
    ErrorView,
> {
    let rels_entry = text_entry(zip_entry(data, "ppt/_rels/presentation.xml.rels"@));
    match zip_open_error(data) {
        Some(why) => Err(ErrorView::ParseError("Failed to open PPTX as ZIP: "@ + why)),
        None => match rels_entry {
            ZipEntryView::Unreadable(why) => Err(
                ErrorView::ParseError("Failed to read relationship XML: "@ + why),
            ),
            _ => match text_entry(zip_entry(data, "ppt/presentation.xml"@)) {
                ZipEntryView::Missing => Err(
                    ErrorView::ParseError("Missing ppt/presentation.xml"@),
                ),
                ZipEntryView::Unreadable(why) => Err(
                    ErrorView::ParseError("Failed to read presentation.xml: "@ + why),
                ),
                ZipEntryView::Data(bytes) => match presentation_of_events(
                    xml_events(bytes, true),
                ) {
                    Err(e) => Err(e),
                    Ok(declared) => match pptx_rels(rels_entry) {
                        Err(e) => Err(e),
                        Ok(rels) => match slides_from(
                            data,
                            rels,
                            declared.0,
                            declared.1,
                            0,
                            Seq::empty(),
                            Seq::empty(),
                        ) {
                            Err(e) => Err(e),
                            Ok(read) => Ok(
                                DocumentView {
                                    source: crate::document::unknown_source(),
                                    metadata: pptx_metadata(
                                        filename,
                                        read.0.len(),
                                        pptx_theme(data, rels),
                                    ),
                                    pages: read.0,
                                    images: read.1,
                                    bare: true,
                                },
                            ),
                        },
                    },
                },
            },
        },
    }
}

/// The parser for presentation packages.
#[derive(Debug, Clone, Copy)]
pub struct PptxParser;

impl PptxParser {
    pub fn new() -> (r: PptxParser) {
        PptxParser
    }

    /// The format that this parser handles.
    pub fn format(&self) -> (r: Format)
        ensures
            r.deep_view() == pptx_format(),
    {
        Format::pptx()
    }

    /// Whether `data` is a ZIP archive that holds `ppt/presentation.xml`.
    pub open spec fn spec_is_pptx_zip(data: Seq<u8>) -> bool {
        data.len() >= 4 && data[0] == 0x50 && data[1] == 0x4B && !(zip_entry(
            data,
            "ppt/presentation.xml"@,
        ) is Missing)
    }

    pub fn is_pptx_zip(data: &[u8]) -> (r: bool)
        ensures
            r == Self::spec_is_pptx_zip(data@),
    {
        if data.len() < 4 || data[0] != 0x50 || data[1] != 0x4B {
            return false;
        }
        match zip_read(data, "ppt/presentation.xml") {
            ZipEntry::Missing => false,
            _ => true,
        }
    }

    /// A cheap check that `data` is a presentation package.
    pub fn can_parse(&self, data: &[u8]) -> (r: bool)
        ensures
            r == Self::spec_is_pptx_zip(data@),
    {
        Self::is_pptx_zip(data)
    }

    /// Reads a presentation part: the relationship ids of the slides in declared order, and
    /// the slide size in EMU.
    pub fn parse_presentation_xml(xml: &str) -> (r: Result<(Vec<String>, Dimensions), Error>)
        ensures
            presentation_view(r) == presentation_of_events(xml_events(xml.spec_bytes(), true)),
    {
        let events = read_events(xml.as_bytes(), true);
        parse_presentation_events(&events)
    }

    /// Parses a presentation package into a document.
    pub fn parse(&self, data: &[u8], context: ParseContext) -> (r: Result<Document, Error>)
        ensures
            result_view(r) == pptx_document(data@, context.filename.deep_view()),
    {
        match zip_check(data) {
            Some(why) => {
                return Err(Error::parse_with("Failed to open PPTX as ZIP: ", why.as_str()));
            },
            None => {},
        }
        let rels_entry = zip_read_text(data, "ppt/_rels/presentation.xml.rels");
        match &rels_entry {
            ZipEntry::Unreadable(why) => {
                return Err(Error::parse_with("Failed to read relationship XML: ", why.as_str()));
            },
            _ => {},
        }
        let declared = match zip_read_text(data, "ppt/presentation.xml") {
            ZipEntry::Missing => {
                return Err(Error::parse("Missing ppt/presentation.xml"));
            },
            ZipEntry::Unreadable(why) => {
                return Err(Error::parse_with("Failed to read presentation.xml: ", why.as_str()));
            },
            ZipEntry::Data(bytes) => {
                let events = read_events(bytes.as_slice(), true);
                match parse_presentation_events(&events) {
                    Ok(found) => found,
                    Err(e) => {
                        return Err(e);
                    },
                }
            },
        };
        let rels = match rels_entry {
            ZipEntry::Data(bytes) => {
                let events = read_events(bytes.as_slice(), true);
                match Relationships::from_events(&events) {
                    Ok(found) => found,
                    Err(e) => {
                        return Err(e);
                    },
                }
            },
            _ => Relationships::new(),
        };
        let theme = load_theme(data, &rels);
        match load_slides(data, &rels, &declared.0, declared.1) {
            Ok(read) => {
                let metadata = make_pptx_metadata(context.filename, read.0.len(), theme);
                Ok(Document::assemble(metadata, read.0, read.1))
            },
            Err(e) => Err(e),
        }
    }

    /// What this parser says of itself.
    pub fn metadata(&self) -> (r: ParserMetadata)
        ensures
            r.deep_view() == (ParserMetadataView {
                name: "PPTX Parser"@,
                version: crate::VERSION@,
                features: seq![ParserFeature::TextExtraction, ParserFeature::MetadataExtraction],
                requires_sandbox: false,
            }),
    {
        let mut features: Vec<ParserFeature> = Vec::new();
        features.push(ParserFeature::TextExtraction);
        features.push(ParserFeature::MetadataExtraction);
        assert(features@ =~= seq![
            ParserFeature::TextExtraction,
            ParserFeature::MetadataExtraction,
        ]);
        ParserMetadata::of("PPTX Parser", features)
    }
}

proof fn lemma_slides_rise(
    data: Seq<u8>,
    rels: Seq<RelationshipView>,
    rids: Seq<Seq<char>>,
    size: Dimensions,
    from: int,
    pages: Seq<PageView>,
    images: Seq<ImageResourceView>,
)
    requires
        0 <= from,
        pages_rise(pages),
        forall|i: int| 0 <= i < pages.len() ==> (#[trigger] pages[i]).number <= from,
    ensures
        slides_from(data, rels, rids, size, from, pages, images) matches Ok(read) ==> pages_rise(
            read.0,
        ),
    decreases rids.len() - from,
{
    if from < rids.len() {
        lemma_slides_rise(data, rels, rids, size, from + 1, pages, images);
        match rel_get(rels, rids[from]) {
            None => {},
            Some(rel) => {
                let entry = part_entry(rel.target);
                match text_entry(zip_entry(data, utf8_lossy(entry))) {
                    ZipEntryView::Data(bytes) => {
                        if bytes.len() != 0 && part_fault(xml_events(bytes, true)) is None {
                            let srels = match split_entry(entry) {
                                Some(parts) => slide_rels_of(data, parts.0, parts.1),
                                None => Seq::empty(),
                            };
                            let loaded = match split_entry(entry) {
                                Some(parts) => images_from(data, parts.0, srels, 0, images),
                                None => images,
                            };
                            let page = slide_page(
                                xml_events(bytes, true),
                                page_number(from as nat),
                                srels,
                                size,
                            );
                            let more = pages.push(page);
                            assert(page.number == page_number(from as nat));
                            assert forall|i: int| 0 <= i < more.len() implies 1 <= (
                            #[trigger] more[i]).number <= from + 1 by {
                                if i < pages.len() {
                                    assert(more[i] == pages[i]);
                                }
                            }
                            assert forall|i: int, j: int| 0 <= i < j < more.len() implies (
                            #[trigger] more[i]).number < (#[trigger] more[j]).number
                                || more[j].number == u32::MAX by {
                                assert(more[i] == pages[i]);
                                if j < pages.len() {
                                    assert(more[j] == pages[j]);
                                }
                            }
                            lemma_slides_rise(data, rels, rids, size, from + 1, more, loaded);
                        }
                    },
                    _ => {},
                }
            },
        }
    }
}

/// The pages of a presentation bear numbers from 1 upwards that rise strictly in the order
/// of the pages: the order in which the presentation declares its slides.
pub proof fn law_slide_numbers_rise(data: Seq<u8>, filename: Option<Seq<char>>)
    ensures
        pptx_document(data, filename) matches Ok(document) ==> pages_rise(document.pages),
{
    match text_entry(zip_entry(data, "ppt/presentation.xml"@)) {
        ZipEntryView::Data(bytes) => match presentation_of_events(xml_events(bytes, true)) {
            Ok(declared) => match pptx_rels(
                text_entry(zip_entry(data, "ppt/_rels/presentation.xml.rels"@)),
            ) {
                Ok(rels) => {
                    lemma_slides_rise(
                        data,
                        rels,
                        declared.0,
                        declared.1,
                        0,
                        Seq::empty(),
                        Seq::empty(),
                    );
                },
                Err(_) => {},
            },
            Err(_) => {},
        },
        _ => {},
    }
}

impl Parser for PptxParser {
    open spec fn handled(&self) -> FormatView {
        pptx_format()
    }

    open spec fn accepts(&self, data: Seq<u8>) -> bool {
        PptxParser::spec_is_pptx_zip(data)
    }

    open spec fn outcome(&self, data: Seq<u8>, filename: Option<Seq<char>>) -> Result<
        DocumentView,
        ErrorView,
    > {
        pptx_document(data, filename)
    }

    open spec fn described(&self) -> ParserMetadataView {
        ParserMetadataView {
            name: "PPTX Parser"@,
            version: crate::VERSION@,
            features: seq![ParserFeature::TextExtraction, ParserFeature::MetadataExtraction],
            requires_sandbox: false,
        }
    }

    fn format(&self) -> (r: Format) {
        PptxParser::format(self)
    }

    fn can_parse(&self, data: &[u8]) -> (r: bool) {
        PptxParser::can_parse(self, data)
    }

    fn parse(&self, data: &[u8], context: ParseContext) -> (r: Result<Document, Error>) {
        PptxParser::parse(self, data, context)
    }

    fn metadata(&self) -> (r: ParserMetadata) {
        PptxParser::metadata(self)
    }
}

/// Whether no two images bear one id.
pub open spec fn image_ids_distinct(images: Seq<ImageResourceView>) -> bool {
    forall|i: int, j: int|
        0 <= i < j < images.len() ==> (#[trigger] images[i]).id != (#[trigger] images[j]).id
}

proof fn lemma_no_such_image(images: Seq<ImageResourceView>, id: Seq<char>, from: int)
    requires
        0 <= from,
        !has_image_from(images, id, from),
    ensures
        forall|i: int| from <= i < images.len() ==> (#[trigger] images[i]).id != id,
    decreases images.len() - from,
{
    if from < images.len() {
        lemma_no_such_image(images, id, from + 1);
    }
}

proof fn lemma_images_from_distinct(
    data: Seq<u8>,
    dir: Seq<u8>,
    rels: Seq<StrEntryView>,
    from: int,
    images: Seq<ImageResourceView>,
)
    requires
        image_ids_distinct(images),
    ensures
        image_ids_distinct(images_from(data, dir, rels, from, images)),
    decreases rels.len() - from,
{
    if 0 <= from < rels.len() {
        let target = rels[from].value;
        let path = resolve_path(dir, encode_utf8(target));
        lemma_images_from_distinct(data, dir, rels, from + 1, images);
        if !has_image_from(images, target, 0) {
            match zip_entry(data, utf8_lossy(path)) {
                ZipEntryView::Data(bytes) => {
                    let more = images.push(image_resource(target, path, bytes));
                    lemma_no_such_image(images, target, 0);
                    assert forall|i: int, j: int| 0 <= i < j < more.len() implies (
                    #[trigger] more[i]).id != (#[trigger] more[j]).id by {
                        assert(more[i] == images[i]);
                        if j < images.len() {
                            assert(more[j] == images[j]);
                        }
                    }
                    lemma_images_from_distinct(data, dir, rels, from + 1, more);
                },
                _ => {},
            }
        }
    }
}

proof fn lemma_slide_images_distinct(
    data: Seq<u8>,
    rels: Seq<RelationshipView>,
    rids: Seq<Seq<char>>,
    size: Dimensions,
    from: int,
    pages: Seq<PageView>,
    images: Seq<ImageResourceView>,
)
    requires
        image_ids_distinct(images),
    ensures
        slides_from(data, rels, rids, size, from, pages, images) matches Ok(read)
            ==> image_ids_distinct(read.1),
    decreases rids.len() - from,
{
    if 0 <= from < rids.len() {
        lemma_slide_images_distinct(data, rels, rids, size, from + 1, pages, images);
        match rel_get(rels, rids[from]) {
            None => {},
            Some(rel) => {
                let entry = part_entry(rel.target);
                match text_entry(zip_entry(data, utf8_lossy(entry))) {
                    ZipEntryView::Data(bytes) => {
                        if bytes.len() != 0 && part_fault(xml_events(bytes, true)) is None {
                            let srels = match split_entry(entry) {
                                Some(parts) => slide_rels_of(data, parts.0, parts.1),
                                None => Seq::empty(),
                            };
                            let loaded = match split_entry(entry) {
                                Some(parts) => images_from(data, parts.0, srels, 0, images),
                                None => images,
                            };
                            match split_entry(entry) {
                                Some(parts) => {
                                    lemma_images_from_distinct(data, parts.0, srels, 0, images);
                                },
                                None => {},
                            }
                            lemma_slide_images_distinct(
                                data,
                                rels,
                                rids,
                                size,
                                from + 1,
                                pages.push(
                                    slide_page(
                                        xml_events(bytes, true),
                                        page_number(from as nat),
                                        srels,
                                        size,
                                    ),
                                ),
                                loaded,
                            );
                        }
                    },
                    _ => {},
                }
            },
        }
    }
}

/// The images of a presentation bear ids that occur once: an image that several slides use
/// is loaded once.
pub proof fn law_image_ids_occur_once(data: Seq<u8>, filename: Option<Seq<char>>)
    ensures
        pptx_document(data, filename) matches Ok(document) ==> image_ids_distinct(document.images),
{
    match text_entry(zip_entry(data, "ppt/presentation.xml"@)) {
        ZipEntryView::Data(bytes) => match presentation_of_events(xml_events(bytes, true)) {
            Ok(declared) => match pptx_rels(
                text_entry(zip_entry(data, "ppt/_rels/presentation.xml.rels"@)),
            ) {
                Ok(rels) => {
                    lemma_slide_images_distinct(
                        data,
                        rels,
                        declared.0,
                        declared.1,
                        0,
                        Seq::empty(),
                        Seq::empty(),
                    );
                },
                Err(_) => {},
            },
            Err(_) => {},
        },
        _ => {},
    }
}

} // verus!
