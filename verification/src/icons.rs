//! Display-only icons from Nerd Fonts. They never become part of a path or of
//! what is matched.
use crate::paths;
use crate::paths::Platform;
use crate::screen;
use crate::screen::{Span, Tone};
use crate::text;
use crate::text::same;
use vstd::prelude::*;

verus! {

/// The mark of a pinned directory.
pub const STAR: &'static str = "★ ";

/// The directory that a listing is inside, as opposed to one merely named in
/// a list.
pub const OPEN_FOLDER: &'static str = "\u{f07c} ";

/// A spreadsheet.
pub open spec fn sheet_extension(ext: Seq<char>) -> bool {
    ||| ext == "xls"@
    ||| ext == "xlsx"@
    ||| ext == "xlsm"@
    ||| ext == "xlsb"@
    ||| ext == "xlt"@
    ||| ext == "xltx"@
    ||| ext == "xltm"@
    ||| ext == "ods"@
    ||| ext == "csv"@
    ||| ext == "tsv"@
}

fn is_sheet(ext: &str) -> (yes: bool)
    ensures
        yes == sheet_extension(ext@),
{
    same(ext, "xls") || same(ext, "xlsx") || same(ext, "xlsm") || same(ext, "xlsb")
        || same(ext, "xlt") || same(ext, "xltx") || same(ext, "xltm") || same(ext, "ods")
        || same(ext, "csv") || same(ext, "tsv")
}

/// A text document.
pub open spec fn document_extension(ext: Seq<char>) -> bool {
    ||| ext == "doc"@
    ||| ext == "docx"@
    ||| ext == "docm"@
    ||| ext == "dot"@
    ||| ext == "dotx"@
    ||| ext == "dotm"@
    ||| ext == "odt"@
    ||| ext == "rtf"@
}

fn is_document(ext: &str) -> (yes: bool)
    ensures
        yes == document_extension(ext@),
{
    same(ext, "doc") || same(ext, "docx") || same(ext, "docm") || same(ext, "dot")
        || same(ext, "dotx") || same(ext, "dotm") || same(ext, "odt") || same(ext, "rtf")
}

/// A presentation.
pub open spec fn slides_extension(ext: Seq<char>) -> bool {
    ||| ext == "ppt"@
    ||| ext == "pptx"@
    ||| ext == "pptm"@
    ||| ext == "pot"@
    ||| ext == "potx"@
    ||| ext == "potm"@
    ||| ext == "pps"@
    ||| ext == "ppsx"@
    ||| ext == "ppsm"@
    ||| ext == "odp"@
}

fn is_slides(ext: &str) -> (yes: bool)
    ensures
        yes == slides_extension(ext@),
{
    same(ext, "ppt") || same(ext, "pptx") || same(ext, "pptm") || same(ext, "pot")
        || same(ext, "potx") || same(ext, "potm") || same(ext, "pps") || same(ext, "ppsx")
        || same(ext, "ppsm") || same(ext, "odp")
}

/// A PDF file.
pub open spec fn pdf_extension(ext: Seq<char>) -> bool {
    ||| ext == "pdf"@
}

fn is_pdf(ext: &str) -> (yes: bool)
    ensures
        yes == pdf_extension(ext@),
{
    same(ext, "pdf")
}

/// A settings file.
pub open spec fn settings_extension(ext: Seq<char>) -> bool {
    ||| ext == "ini"@
    ||| ext == "cfg"@
    ||| ext == "conf"@
    ||| ext == "toml"@
    ||| ext == "yaml"@
    ||| ext == "yml"@
    ||| ext == "json"@
    ||| ext == "jsonc"@
    ||| ext == "json5"@
    ||| ext == "xml"@
}

fn is_settings(ext: &str) -> (yes: bool)
    ensures
        yes == settings_extension(ext@),
{
    same(ext, "ini") || same(ext, "cfg") || same(ext, "conf") || same(ext, "toml")
        || same(ext, "yaml") || same(ext, "yml") || same(ext, "json") || same(ext, "jsonc")
        || same(ext, "json5") || same(ext, "xml")
}

/// A database.
pub open spec fn database_extension(ext: Seq<char>) -> bool {
    ||| ext == "db"@
    ||| ext == "sqlite"@
    ||| ext == "sqlite3"@
    ||| ext == "sql"@
    ||| ext == "duckdb"@
}

fn is_database(ext: &str) -> (yes: bool)
    ensures
        yes == database_extension(ext@),
{
    same(ext, "db") || same(ext, "sqlite") || same(ext, "sqlite3") || same(ext, "sql")
        || same(ext, "duckdb")
}

/// A program.
pub open spec fn program_extension(ext: Seq<char>) -> bool {
    ||| ext == "exe"@
    ||| ext == "msi"@
    ||| ext == "msix"@
    ||| ext == "com"@
}

fn is_program(ext: &str) -> (yes: bool)
    ensures
        yes == program_extension(ext@),
{
    same(ext, "exe") || same(ext, "msi") || same(ext, "msix") || same(ext, "com")
}

/// A font.
pub open spec fn font_extension(ext: Seq<char>) -> bool {
    ||| ext == "ttf"@
    ||| ext == "otf"@
    ||| ext == "woff"@
    ||| ext == "woff2"@
}

fn is_font(ext: &str) -> (yes: bool)
    ensures
        yes == font_extension(ext@),
{
    same(ext, "ttf") || same(ext, "otf") || same(ext, "woff") || same(ext, "woff2")
}

/// Source code.
pub open spec fn code_extension(ext: Seq<char>) -> bool {
    ||| ext == "rs"@
    ||| ext == "py"@
    ||| ext == "js"@
    ||| ext == "jsx"@
    ||| ext == "ts"@
    ||| ext == "tsx"@
    ||| ext == "c"@
    ||| ext == "h"@
    ||| ext == "cpp"@
    ||| ext == "hpp"@
    ||| ext == "go"@
    ||| ext == "java"@
    ||| ext == "rb"@
    ||| ext == "sh"@
    ||| ext == "ps1"@
    ||| ext == "html"@
    ||| ext == "css"@
}

fn is_code(ext: &str) -> (yes: bool)
    ensures
        yes == code_extension(ext@),
{
    same(ext, "rs") || same(ext, "py") || same(ext, "js") || same(ext, "jsx") || same(ext, "ts")
        || same(ext, "tsx") || same(ext, "c") || same(ext, "h") || same(ext, "cpp")
        || same(ext, "hpp") || same(ext, "go") || same(ext, "java") || same(ext, "rb")
        || same(ext, "sh") || same(ext, "ps1") || same(ext, "html") || same(ext, "css")
}

/// An image.
pub open spec fn image_extension(ext: Seq<char>) -> bool {
    ||| ext == "png"@
    ||| ext == "jpg"@
    ||| ext == "jpeg"@
    ||| ext == "gif"@
    ||| ext == "webp"@
    ||| ext == "svg"@
    ||| ext == "ico"@
    ||| ext == "bmp"@
}

fn is_image(ext: &str) -> (yes: bool)
    ensures
        yes == image_extension(ext@),
{
    same(ext, "png") || same(ext, "jpg") || same(ext, "jpeg") || same(ext, "gif")
        || same(ext, "webp") || same(ext, "svg") || same(ext, "ico") || same(ext, "bmp")
}

/// An archive.
pub open spec fn archive_extension(ext: Seq<char>) -> bool {
    ||| ext == "zip"@
    ||| ext == "gz"@
    ||| ext == "tar"@
    ||| ext == "7z"@
    ||| ext == "rar"@
    ||| ext == "xz"@
    ||| ext == "bz2"@
}

fn is_archive(ext: &str) -> (yes: bool)
    ensures
        yes == archive_extension(ext@),
{
    same(ext, "zip") || same(ext, "gz") || same(ext, "tar") || same(ext, "7z") || same(ext, "rar")
        || same(ext, "xz") || same(ext, "bz2")
}

/// A sound file.
pub open spec fn audio_extension(ext: Seq<char>) -> bool {
    ||| ext == "mp3"@
    ||| ext == "wav"@
    ||| ext == "flac"@
    ||| ext == "ogg"@
    ||| ext == "m4a"@
}

fn is_audio(ext: &str) -> (yes: bool)
    ensures
        yes == audio_extension(ext@),
{
    same(ext, "mp3") || same(ext, "wav") || same(ext, "flac") || same(ext, "ogg")
        || same(ext, "m4a")
}

/// A video.
pub open spec fn video_extension(ext: Seq<char>) -> bool {
    ||| ext == "mp4"@
    ||| ext == "mkv"@
    ||| ext == "webm"@
    ||| ext == "mov"@
    ||| ext == "avi"@
}

fn is_video(ext: &str) -> (yes: bool)
    ensures
        yes == video_extension(ext@),
{
    same(ext, "mp4") || same(ext, "mkv") || same(ext, "webm") || same(ext, "mov")
        || same(ext, "avi")
}

/// Plain text.
pub open spec fn note_extension(ext: Seq<char>) -> bool {
    ||| ext == "md"@
    ||| ext == "txt"@
    ||| ext == "log"@
    ||| ext == "rst"@
}

fn is_note(ext: &str) -> (yes: bool)
    ensures
        yes == note_extension(ext@),
{
    same(ext, "md") || same(ext, "txt") || same(ext, "log") || same(ext, "rst")
}

/// The icon of a file, by its extension in lower case.
pub open spec fn file_icon(ext: Seq<char>) -> Seq<char> {
    if sheet_extension(ext) {
        "\u{f1c3} "@
    } else if document_extension(ext) {
        "\u{f1c2} "@
    } else if slides_extension(ext) {
        "\u{f1c4} "@
    } else if pdf_extension(ext) {
        "\u{f1c1} "@
    } else if settings_extension(ext) {
        "\u{f013} "@
    } else if database_extension(ext) {
        "\u{f1c0} "@
    } else if program_extension(ext) {
        "\u{f085} "@
    } else if font_extension(ext) {
        "\u{f031} "@
    } else if code_extension(ext) {
        "\u{f121} "@
    } else if image_extension(ext) {
        "\u{f1c5} "@
    } else if archive_extension(ext) {
        "\u{f1c6} "@
    } else if audio_extension(ext) {
        "\u{f1c7} "@
    } else if video_extension(ext) {
        "\u{f1c8} "@
    } else if note_extension(ext) {
        "\u{f15c} "@
    } else {
        "\u{f15b} "@
    }
}

/// The extension of the last name of a path, in lower case, or nothing.
pub open spec fn lower_extension(path: Seq<char>, platform: Platform) -> Seq<char> {
    match paths::name_of(path, platform) {
        Some(name) => match paths::extension_of(name) {
            Some(ext) => text::ascii_lower(ext),
            None => Seq::empty(),
        },
        None => Seq::empty(),
    }
}

/// What stands before a name: nothing where icons are off, a folder, or the
/// icon that the extension calls for.
pub open spec fn prefix_of(
    name: Seq<char>,
    is_dir: bool,
    enabled: bool,
    platform: Platform,
) -> Seq<char> {
    if !enabled {
        ""@
    } else if is_dir {
        "\u{f07b} "@
    } else {
        file_icon(lower_extension(name, platform))
    }
}

/// What stands before a name.
pub fn prefix(name: &str, is_dir: bool, enabled: bool, platform: Platform) -> (icon: &'static str)
    ensures
        icon@ == prefix_of(name@, is_dir, enabled, platform),
{
    if !enabled {
        return "";
    }
    if is_dir {
        return "\u{f07b} ";
    }
    let extension = match paths::file_name(name, platform) {
        Some(name) => match paths::extension(name.as_str()) {
            Some(ext) => text::to_ascii_lower(ext.as_str()),
            None => String::new(),
        },
        None => String::new(),
    };
    let ext = extension.as_str();
    assert(ext@ =~= lower_extension(name@, platform));
    if is_sheet(ext) {
        "\u{f1c3} "
    } else if is_document(ext) {
        "\u{f1c2} "
    } else if is_slides(ext) {
        "\u{f1c4} "
    } else if is_pdf(ext) {
        "\u{f1c1} "
    } else if is_settings(ext) {
        "\u{f013} "
    } else if is_database(ext) {
        "\u{f1c0} "
    } else if is_program(ext) {
        "\u{f085} "
    } else if is_font(ext) {
        "\u{f031} "
    } else if is_code(ext) {
        "\u{f121} "
    } else if is_image(ext) {
        "\u{f1c5} "
    } else if is_archive(ext) {
        "\u{f1c6} "
    } else if is_audio(ext) {
        "\u{f1c7} "
    } else if is_video(ext) {
        "\u{f1c8} "
    } else if is_note(ext) {
        "\u{f15c} "
    } else {
        "\u{f15b} "
    }
}

proof fn lemma_lower_char(c: char)
    ensures
        text::ascii_lower_char(text::ascii_lower_char(c)) == text::ascii_lower_char(c),
        text::ascii_lower_char(c) == '.' <==> c == '.',
        text::ascii_lower_char(c) == '/' <==> c == '/',
        text::ascii_lower_char(c) == '\\' <==> c == '\\',
        text::ascii_lower_char(text::ascii_upper_char(c)) == text::ascii_lower_char(c),
{
}

/// Lower case changes nothing where there are only dots.
proof fn lemma_lower_dots(text: Seq<char>, dots: Seq<char>)
    requires
        forall|i: int| 0 <= i < dots.len() ==> dots[i] == '.',
    ensures
        text::ascii_lower(text) == dots <==> text == dots,
{
    let low = text::ascii_lower(text);
    if low == dots {
        assert forall|i: int| 0 <= i < text.len() implies text[i] == dots[i] by {
            assert(low[i] == text::ascii_lower_char(text[i]));
            lemma_lower_char(text[i]);
        }
        assert(text =~= dots);
    }
    if text == dots {
        assert forall|i: int| 0 <= i < text.len() implies low[i] == dots[i] by {
            lemma_lower_char(text[i]);
        }
        assert(low =~= dots);
    }
}

/// Lower case keeps the separators of a path where they are.
proof fn lemma_lower_pieces(path: Seq<char>, platform: Platform)
    ensures
        paths::pieces_of(text::ascii_lower(path), platform) == paths::pieces_of(
            path,
            platform,
        ).map_values(|piece: Seq<char>| text::ascii_lower(piece)),
        paths::pieces_of(path, platform).len() > 0,
    decreases path.len(),
{
    let low = text::ascii_lower(path);
    let lower = |piece: Seq<char>| text::ascii_lower(piece);
    if path.len() == 0 {
        assert(low =~= path);
        assert(text::ascii_lower(Seq::empty()) =~= Seq::<char>::empty());
        assert(paths::pieces_of(path, platform).map_values(lower) =~= seq![Seq::<char>::empty()]);
    } else {
        let front = path.drop_last();
        lemma_lower_pieces(front, platform);
        lemma_lower_char(path.last());
        assert(low.drop_last() =~= text::ascii_lower(front));
        let before = paths::pieces_of(front, platform);
        let after = paths::pieces_of(path, platform);
        if platform.separates(path.last()) {
            assert(text::ascii_lower(Seq::empty()) =~= Seq::<char>::empty());
            assert(after.map_values(lower) =~= before.map_values(lower).push(Seq::empty()));
        } else {
            let last = before.last().push(path.last());
            assert(text::ascii_lower(last) =~= text::ascii_lower(before.last()).push(low.last()));
            assert(after.map_values(lower) =~= before.map_values(lower).drop_last().push(
                text::ascii_lower(last),
            ));
        }
    }
}

/// Lower case keeps the steps of a path.
proof fn lemma_lower_steps(pieces: Seq<Seq<char>>)
    ensures
        paths::steps_of(pieces.map_values(|piece: Seq<char>| text::ascii_lower(piece)))
            == paths::steps_of(pieces).map_values(|piece: Seq<char>| text::ascii_lower(piece)),
    decreases pieces.len(),
{
    let lower = |piece: Seq<char>| text::ascii_lower(piece);
    let low = pieces.map_values(lower);
    if pieces.len() == 0 {
        assert(paths::steps_of(low) =~= paths::steps_of(pieces).map_values(lower));
    } else {
        let front = pieces.drop_last();
        lemma_lower_steps(front);
        assert(low.drop_last() =~= front.map_values(lower));
        reveal_strlit(".");
        lemma_lower_dots(pieces.last(), "."@);
        assert(low.last() == text::ascii_lower(pieces.last()));
        assert(paths::steps_of(low) =~= paths::steps_of(pieces).map_values(lower));
    }
}

/// Lower case keeps the place of a name's extension.
proof fn lemma_lower_extension(name: Seq<char>)
    ensures
        match paths::extension_of(name) {
            Some(ext) => paths::extension_of(text::ascii_lower(name)) == Some(
                text::ascii_lower(ext),
            ),
            None => paths::extension_of(text::ascii_lower(name)) is None,
        },
{
    let low = text::ascii_lower(name);
    assert forall|i: int| 0 <= i < name.len() implies (low[i] == '.' <==> name[i] == '.') by {
        lemma_lower_char(name[i]);
    }
    assert forall|i: int|
        paths::is_extension_dot(low, i) <==> paths::is_extension_dot(name, i) by {}
    if let Some(at) = paths::extension_dot(name) {
        assert(paths::is_extension_dot(name, at));
        assert(paths::is_extension_dot(low, at));
        let there = paths::extension_dot(low)->0;
        assert(paths::is_extension_dot(low, there));
        assert(there == at);
        assert(low.skip(at + 1) =~= text::ascii_lower(name.skip(at + 1)));
    } else {
        assert(forall|i: int| !paths::is_extension_dot(name, i));
    }
}

/// The extension in lower case is that of the path in lower case.
proof fn lemma_lower_path(path: Seq<char>, platform: Platform)
    ensures
        lower_extension(text::ascii_lower(path), platform) == lower_extension(path, platform),
{
    let lower = |piece: Seq<char>| text::ascii_lower(piece);
    lemma_lower_pieces(path, platform);
    lemma_lower_steps(paths::pieces_of(path, platform));
    let steps = paths::path_steps(path, platform);
    assert(paths::path_steps(text::ascii_lower(path), platform) == steps.map_values(lower));
    if steps.len() > 0 {
        let last = steps.last();
        assert(steps.map_values(lower).last() == text::ascii_lower(last));
        reveal_strlit(".");
        reveal_strlit("..");
        lemma_lower_dots(last, "."@);
        lemma_lower_dots(last, ".."@);
        lemma_lower_extension(last);
        if let Some(ext) = paths::extension_of(last) {
            assert forall|i: int| 0 <= i < ext.len() implies text::ascii_lower(
                text::ascii_lower(ext),
            )[i] == text::ascii_lower(ext)[i] by {
                lemma_lower_char(ext[i]);
            }
            assert(text::ascii_lower(text::ascii_lower(ext)) =~= text::ascii_lower(ext));
        }
    }
}

/// The icon of a name does not depend on the case of its letters: two names
/// that differ in it alone have the same icon, such as a name and the same
/// name in capitals.
pub proof fn icons_disregard_case(
    one: Seq<char>,
    other: Seq<char>,
    is_dir: bool,
    enabled: bool,
    platform: Platform,
)
    ensures
        text::ascii_lower(one) == text::ascii_lower(other) ==> prefix_of(
            one,
            is_dir,
            enabled,
            platform,
        ) == prefix_of(other, is_dir, enabled, platform),
        prefix_of(text::ascii_upper(one), is_dir, enabled, platform) == prefix_of(
            one,
            is_dir,
            enabled,
            platform,
        ),
{
    let capitals = text::ascii_upper(one);
    assert forall|i: int| 0 <= i < one.len() implies text::ascii_lower(capitals)[i]
        == text::ascii_lower(one)[i] by {
        lemma_lower_char(one[i]);
    }
    assert(text::ascii_lower(capitals) =~= text::ascii_lower(one));
    lemma_lower_path(one, platform);
    lemma_lower_path(other, platform);
    lemma_lower_path(capitals, platform);
}

/// Nothing stands before a name where icons are off, and a folder has the same
/// icon whatever its name.
pub proof fn folders_look_alike(
    one: Seq<char>,
    other: Seq<char>,
    is_dir: bool,
    platform: Platform,
)
    ensures
        prefix_of(one, is_dir, false, platform) == Seq::<char>::empty(),
        prefix_of(one, true, true, platform) == prefix_of(other, true, true, platform),
        prefix_of(one, true, true, platform) != Seq::<char>::empty(),
{
    reveal_strlit("");
    reveal_strlit("\u{f07b} ");
    assert(""@ =~= Seq::<char>::empty());
}

proof fn lemma_sheet_letters(ext: Seq<char>)
    requires
        sheet_extension(ext),
    ensures
        ext.len() >= 3,
        ext[0] == 'x' || ext[0] == 'c' || ext[0] == 't' || (ext[0] == 'o' && ext[2] == 's'),
{
    reveal_strlit("xls");
    reveal_strlit("xlsx");
    reveal_strlit("xlsm");
    reveal_strlit("xlsb");
    reveal_strlit("xlt");
    reveal_strlit("xltx");
    reveal_strlit("xltm");
    reveal_strlit("ods");
    reveal_strlit("csv");
    reveal_strlit("tsv");
}

proof fn lemma_document_letters(ext: Seq<char>)
    requires
        document_extension(ext),
    ensures
        ext.len() >= 3,
        ext[0] == 'd' || ext[0] == 'r' || (ext[0] == 'o' && ext[2] == 't'),
{
    reveal_strlit("doc");
    reveal_strlit("docx");
    reveal_strlit("docm");
    reveal_strlit("dot");
    reveal_strlit("dotx");
    reveal_strlit("dotm");
    reveal_strlit("odt");
    reveal_strlit("rtf");
}

proof fn lemma_slides_letters(ext: Seq<char>)
    requires
        slides_extension(ext),
    ensures
        ext.len() >= 3,
        (ext[0] == 'p' && ext[1] != 'd') || (ext[0] == 'o' && ext[2] == 'p'),
{
    reveal_strlit("ppt");
    reveal_strlit("pptx");
    reveal_strlit("pptm");
    reveal_strlit("pot");
    reveal_strlit("potx");
    reveal_strlit("potm");
    reveal_strlit("pps");
    reveal_strlit("ppsx");
    reveal_strlit("ppsm");
    reveal_strlit("odp");
}

proof fn lemma_pdf_letters(ext: Seq<char>)
    requires
        pdf_extension(ext),
    ensures
        ext.len() == 3,
        ext[0] == 'p' && ext[1] == 'd',
{
    reveal_strlit("pdf");
}

/// Whether an extension is that of a spreadsheet, a text document, a
/// presentation or a PDF file.
pub open spec fn office_extension(ext: Seq<char>) -> bool {
    sheet_extension(ext) || document_extension(ext) || slides_extension(ext) || pdf_extension(ext)
}

proof fn lemma_office_icons(
    sheet: Seq<char>,
    document: Seq<char>,
    slides: Seq<char>,
    pdf: Seq<char>,
    other: Seq<char>,
)
    requires
        sheet_extension(sheet),
        document_extension(document),
        slides_extension(slides),
        pdf_extension(pdf),
        other.len() == 0 || !office_extension(other),
    ensures
        ({
            let icons = seq![
                file_icon(sheet),
                file_icon(document),
                file_icon(slides),
                file_icon(pdf),
                file_icon(other),
            ];
            forall|i: int, j: int| 0 <= i < j < 5 ==> icons[i] != icons[j]
        }),
{
    lemma_document_letters(document);
    if sheet_extension(document) {
        lemma_sheet_letters(document);
    }
    lemma_slides_letters(slides);
    if sheet_extension(slides) {
        lemma_sheet_letters(slides);
    }
    if document_extension(slides) {
        lemma_document_letters(slides);
    }
    lemma_pdf_letters(pdf);
    if sheet_extension(pdf) {
        lemma_sheet_letters(pdf);
    }
    if document_extension(pdf) {
        lemma_document_letters(pdf);
    }
    if slides_extension(pdf) {
        lemma_slides_letters(pdf);
    }
    if sheet_extension(other) {
        lemma_sheet_letters(other);
    }
    if document_extension(other) {
        lemma_document_letters(other);
    }
    if slides_extension(other) {
        lemma_slides_letters(other);
    }
    if pdf_extension(other) {
        lemma_pdf_letters(other);
    }
    reveal_strlit("\u{f1c3} ");
    reveal_strlit("\u{f1c2} ");
    reveal_strlit("\u{f1c4} ");
    reveal_strlit("\u{f1c1} ");
    reveal_strlit("\u{f013} ");
    reveal_strlit("\u{f1c0} ");
    reveal_strlit("\u{f085} ");
    reveal_strlit("\u{f031} ");
    reveal_strlit("\u{f121} ");
    reveal_strlit("\u{f1c5} ");
    reveal_strlit("\u{f1c6} ");
    reveal_strlit("\u{f1c7} ");
    reveal_strlit("\u{f1c8} ");
    reveal_strlit("\u{f15c} ");
    reveal_strlit("\u{f15b} ");
    assert(file_icon(sheet)[0] == '\u{f1c3}');
    assert(file_icon(document)[0] == '\u{f1c2}');
    assert(file_icon(slides)[0] == '\u{f1c4}');
    assert(file_icon(pdf)[0] == '\u{f1c1}');
    let last = file_icon(other)[0];
    assert(last != '\u{f1c3}' && last != '\u{f1c2}' && last != '\u{f1c4}' && last != '\u{f1c1}');
}

/// The icons tell spreadsheets, text documents, presentations, PDF files and
/// all other files apart, files without an extension among them.
pub proof fn office_icons_are_distinct(
    sheet: Seq<char>,
    document: Seq<char>,
    slides: Seq<char>,
    pdf: Seq<char>,
    other: Seq<char>,
    platform: Platform,
)
    requires
        sheet_extension(lower_extension(sheet, platform)),
        document_extension(lower_extension(document, platform)),
        slides_extension(lower_extension(slides, platform)),
        pdf_extension(lower_extension(pdf, platform)),
        lower_extension(other, platform).len() == 0 || !office_extension(
            lower_extension(other, platform),
        ),
    ensures
        ({
            let icons = seq![
                prefix_of(sheet, false, true, platform),
                prefix_of(document, false, true, platform),
                prefix_of(slides, false, true, platform),
                prefix_of(pdf, false, true, platform),
                prefix_of(other, false, true, platform),
            ];
            forall|i: int, j: int| 0 <= i < j < 5 ==> icons[i] != icons[j]
        }),
{
    lemma_office_icons(
        lower_extension(sheet, platform),
        lower_extension(document, platform),
        lower_extension(slides, platform),
        lower_extension(pdf, platform),
        lower_extension(other, platform),
    );
}

/// The colour of an icon. An icon without one takes that of its row.
pub open spec fn icon_tone(icon: Seq<char>) -> Tone {
    if icon == "★ "@ {
        Tone::Icon(220)
    } else if icon == "\u{f07b} "@ {
        Tone::Icon(75)
    } else if icon == "\u{f07c} "@ {
        Tone::Icon(75)
    } else if icon == "\u{f1c3} "@ {
        Tone::Icon(71)
    } else if icon == "\u{f1c2} "@ {
        Tone::Icon(75)
    } else if icon == "\u{f1c4} "@ {
        Tone::Icon(208)
    } else if icon == "\u{f1c1} "@ {
        Tone::Icon(203)
    } else if icon == "\u{f013} "@ {
        Tone::Icon(109)
    } else if icon == "\u{f1c0} "@ {
        Tone::Icon(179)
    } else if icon == "\u{f085} "@ {
        Tone::Icon(114)
    } else if icon == "\u{f031} "@ {
        Tone::Icon(180)
    } else if icon == "\u{f121} "@ {
        Tone::Icon(110)
    } else if icon == "\u{f1c5} "@ {
        Tone::Icon(176)
    } else if icon == "\u{f1c6} "@ {
        Tone::Icon(179)
    } else if icon == "\u{f1c7} "@ {
        Tone::Icon(80)
    } else if icon == "\u{f1c8} "@ {
        Tone::Icon(173)
    } else if icon == "\u{f15c} "@ {
        Tone::Icon(114)
    } else {
        Tone::Plain
    }
}

/// The icon as a piece of text in its own colour; the background and the
/// weight stay those of the row.
pub fn span(icon: &str) -> (piece: Span)
    ensures
        piece@ == screen::spanned(icon@, icon_tone(icon@)),
{
    let tone = if same(icon, "★ ") {
        Tone::Icon(220)
    } else if same(icon, "\u{f07b} ") {
        Tone::Icon(75)
    } else if same(icon, "\u{f07c} ") {
        Tone::Icon(75)
    } else if same(icon, "\u{f1c3} ") {
        Tone::Icon(71)
    } else if same(icon, "\u{f1c2} ") {
        Tone::Icon(75)
    } else if same(icon, "\u{f1c4} ") {
        Tone::Icon(208)
    } else if same(icon, "\u{f1c1} ") {
        Tone::Icon(203)
    } else if same(icon, "\u{f013} ") {
        Tone::Icon(109)
    } else if same(icon, "\u{f1c0} ") {
        Tone::Icon(179)
    } else if same(icon, "\u{f085} ") {
        Tone::Icon(114)
    } else if same(icon, "\u{f031} ") {
        Tone::Icon(180)
    } else if same(icon, "\u{f121} ") {
        Tone::Icon(110)
    } else if same(icon, "\u{f1c5} ") {
        Tone::Icon(176)
    } else if same(icon, "\u{f1c6} ") {
        Tone::Icon(179)
    } else if same(icon, "\u{f1c7} ") {
        Tone::Icon(80)
    } else if same(icon, "\u{f1c8} ") {
        Tone::Icon(173)
    } else if same(icon, "\u{f15c} ") {
        Tone::Icon(114)
    } else {
        Tone::Plain
    };
    screen::span(icon, tone)
}

/// What a file is shown as follows from its extension: the extensions of each
/// kind of file, and the icon of that kind.
pub proof fn the_kinds_of_files(ext: Seq<char>)
    ensures
        (ext == "xls"@ || ext == "xlsx"@ || ext == "xlsm"@ || ext == "xlsb"@
            || ext == "xlt"@ || ext == "xltx"@ || ext == "xltm"@ || ext == "ods"@ || ext == "csv"@
            || ext == "tsv"@) == sheet_extension(ext),
        (ext == "doc"@ || ext == "docx"@ || ext == "docm"@ || ext == "dot"@
            || ext == "dotx"@ || ext == "dotm"@ || ext == "odt"@
            || ext == "rtf"@) == document_extension(ext),
        (ext == "ppt"@ || ext == "pptx"@ || ext == "pptm"@ || ext == "pot"@
            || ext == "potx"@ || ext == "potm"@ || ext == "pps"@ || ext == "ppsx"@
            || ext == "ppsm"@ || ext == "odp"@) == slides_extension(ext),
        (ext == "pdf"@) == pdf_extension(ext),
        (ext == "ini"@ || ext == "cfg"@ || ext == "conf"@ || ext == "toml"@
            || ext == "yaml"@ || ext == "yml"@ || ext == "json"@ || ext == "jsonc"@
            || ext == "json5"@ || ext == "xml"@) == settings_extension(ext),
        (ext == "db"@ || ext == "sqlite"@ || ext == "sqlite3"@ || ext == "sql"@
            || ext == "duckdb"@) == database_extension(ext),
        (ext == "exe"@ || ext == "msi"@ || ext == "msix"@
            || ext == "com"@) == program_extension(ext),
        (ext == "ttf"@ || ext == "otf"@ || ext == "woff"@
            || ext == "woff2"@) == font_extension(ext),
        (ext == "rs"@ || ext == "py"@ || ext == "js"@ || ext == "jsx"@ || ext == "ts"@
            || ext == "tsx"@ || ext == "c"@ || ext == "h"@ || ext == "cpp"@ || ext == "hpp"@ || ext
            == "go"@ || ext == "java"@ || ext == "rb"@ || ext == "sh"@ || ext == "ps1"@
            || ext == "html"@ || ext == "css"@) == code_extension(ext),
        (ext == "png"@ || ext == "jpg"@ || ext == "jpeg"@ || ext == "gif"@ || ext == "webp"@ || ext
            == "svg"@ || ext == "ico"@ || ext == "bmp"@) == image_extension(ext),
        (ext == "zip"@ || ext == "gz"@ || ext == "tar"@ || ext == "7z"@ || ext == "rar"@
            || ext == "xz"@ || ext == "bz2"@) == archive_extension(ext),
        (ext == "mp3"@ || ext == "wav"@ || ext == "flac"@ || ext == "ogg"@
            || ext == "m4a"@) == audio_extension(ext),
        (ext == "mp4"@ || ext == "mkv"@ || ext == "webm"@ || ext == "mov"@
            || ext == "avi"@) == video_extension(ext),
        (ext == "md"@ || ext == "txt"@ || ext == "log"@ || ext == "rst"@) == note_extension(ext),
        sheet_extension(ext) ==> file_icon(ext) == "\u{f1c3} "@,
        !sheet_extension(ext) && document_extension(ext) ==> file_icon(ext) == "\u{f1c2} "@,
        !sheet_extension(ext) && !document_extension(ext)
            && slides_extension(ext) ==> file_icon(ext) == "\u{f1c4} "@,
        !sheet_extension(ext) && !document_extension(ext)
            && !slides_extension(ext) && pdf_extension(ext) ==> file_icon(ext) == "\u{f1c1} "@,
        !sheet_extension(ext) && !document_extension(ext)
            && !slides_extension(ext) && !pdf_extension(ext)
            && settings_extension(ext) ==> file_icon(ext) == "\u{f013} "@,
        !sheet_extension(ext) && !document_extension(ext)
            && !slides_extension(ext) && !pdf_extension(ext)
            && !settings_extension(ext)
            && database_extension(ext) ==> file_icon(ext) == "\u{f1c0} "@,
        !sheet_extension(ext) && !document_extension(ext)
            && !slides_extension(ext) && !pdf_extension(ext)
            && !settings_extension(ext) && !database_extension(ext)
            && program_extension(ext) ==> file_icon(ext) == "\u{f085} "@,
        !sheet_extension(ext) && !document_extension(ext)
            && !slides_extension(ext) && !pdf_extension(ext)
            && !settings_extension(ext) && !database_extension(ext)
            && !program_extension(ext) && font_extension(ext) ==> file_icon(ext) == "\u{f031} "@,
        !sheet_extension(ext) && !document_extension(ext)
            && !slides_extension(ext) && !pdf_extension(ext)
            && !settings_extension(ext) && !database_extension(ext)
            && !program_extension(ext) && !font_extension(ext)
            && code_extension(ext) ==> file_icon(ext) == "\u{f121} "@,
        !sheet_extension(ext) && !document_extension(ext)
            && !slides_extension(ext) && !pdf_extension(ext)
            && !settings_extension(ext) && !database_extension(ext)
            && !program_extension(ext) && !font_extension(ext)
            && !code_extension(ext) && image_extension(ext) ==> file_icon(ext) == "\u{f1c5} "@,
        !sheet_extension(ext) && !document_extension(ext)
            && !slides_extension(ext) && !pdf_extension(ext)
            && !settings_extension(ext) && !database_extension(ext)
            && !program_extension(ext) && !font_extension(ext)
            && !code_extension(ext) && !image_extension(ext)
            && archive_extension(ext) ==> file_icon(ext) == "\u{f1c6} "@,
        !sheet_extension(ext) && !document_extension(ext)
            && !slides_extension(ext) && !pdf_extension(ext)
            && !settings_extension(ext) && !database_extension(ext)
            && !program_extension(ext) && !font_extension(ext)
            && !code_extension(ext) && !image_extension(ext)
            && !archive_extension(ext) && audio_extension(ext) ==> file_icon(ext) == "\u{f1c7} "@,
        !sheet_extension(ext) && !document_extension(ext)
            && !slides_extension(ext) && !pdf_extension(ext)
            && !settings_extension(ext) && !database_extension(ext)
            && !program_extension(ext) && !font_extension(ext)
            && !code_extension(ext) && !image_extension(ext)
            && !archive_extension(ext) && !audio_extension(ext)
            && video_extension(ext) ==> file_icon(ext) == "\u{f1c8} "@,
        !sheet_extension(ext) && !document_extension(ext)
            && !slides_extension(ext) && !pdf_extension(ext)
            && !settings_extension(ext) && !database_extension(ext)
            && !program_extension(ext) && !font_extension(ext)
            && !code_extension(ext) && !image_extension(ext)
            && !archive_extension(ext) && !audio_extension(ext)
            && !video_extension(ext) && note_extension(ext) ==> file_icon(ext) == "\u{f15c} "@,
{
}

/// The colour of each icon; a text of any other length takes that of its row.
pub proof fn the_colours_of_the_icons(icon: Seq<char>)
    ensures
        icon.len() == 2 && icon[0] == '★' && icon[1] == ' ' ==> icon_tone(icon)
            == Tone::Icon(220),
        icon.len() == 2 && icon[0] == '\u{f07b}' && icon[1] == ' ' ==> icon_tone(icon)
            == Tone::Icon(75),
        icon.len() == 2 && icon[0] == '\u{f07c}' && icon[1] == ' ' ==> icon_tone(icon)
            == Tone::Icon(75),
        icon.len() == 2 && icon[0] == '\u{f1c3}' && icon[1] == ' ' ==> icon_tone(icon)
            == Tone::Icon(71),
        icon.len() == 2 && icon[0] == '\u{f1c2}' && icon[1] == ' ' ==> icon_tone(icon)
            == Tone::Icon(75),
        icon.len() == 2 && icon[0] == '\u{f1c4}' && icon[1] == ' ' ==> icon_tone(icon)
            == Tone::Icon(208),
        icon.len() == 2 && icon[0] == '\u{f1c1}' && icon[1] == ' ' ==> icon_tone(icon)
            == Tone::Icon(203),
        icon.len() == 2 && icon[0] == '\u{f013}' && icon[1] == ' ' ==> icon_tone(icon)
            == Tone::Icon(109),
        icon.len() == 2 && icon[0] == '\u{f1c0}' && icon[1] == ' ' ==> icon_tone(icon)
            == Tone::Icon(179),
        icon.len() == 2 && icon[0] == '\u{f085}' && icon[1] == ' ' ==> icon_tone(icon)
            == Tone::Icon(114),
        icon.len() == 2 && icon[0] == '\u{f031}' && icon[1] == ' ' ==> icon_tone(icon)
            == Tone::Icon(180),
        icon.len() == 2 && icon[0] == '\u{f121}' && icon[1] == ' ' ==> icon_tone(icon)
            == Tone::Icon(110),
        icon.len() == 2 && icon[0] == '\u{f1c5}' && icon[1] == ' ' ==> icon_tone(icon)
            == Tone::Icon(176),
        icon.len() == 2 && icon[0] == '\u{f1c6}' && icon[1] == ' ' ==> icon_tone(icon)
            == Tone::Icon(179),
        icon.len() == 2 && icon[0] == '\u{f1c7}' && icon[1] == ' ' ==> icon_tone(icon)
            == Tone::Icon(80),
        icon.len() == 2 && icon[0] == '\u{f1c8}' && icon[1] == ' ' ==> icon_tone(icon)
            == Tone::Icon(173),
        icon.len() == 2 && icon[0] == '\u{f15c}' && icon[1] == ' ' ==> icon_tone(icon)
            == Tone::Icon(114),
        icon.len() != 2 ==> icon_tone(icon) is Plain,
{
    reveal_strlit("★ ");
    reveal_strlit("\u{f07b} ");
    reveal_strlit("\u{f07c} ");
    reveal_strlit("\u{f1c3} ");
    reveal_strlit("\u{f1c2} ");
    reveal_strlit("\u{f1c4} ");
    reveal_strlit("\u{f1c1} ");
    reveal_strlit("\u{f013} ");
    reveal_strlit("\u{f1c0} ");
    reveal_strlit("\u{f085} ");
    reveal_strlit("\u{f031} ");
    reveal_strlit("\u{f121} ");
    reveal_strlit("\u{f1c5} ");
    reveal_strlit("\u{f1c6} ");
    reveal_strlit("\u{f1c7} ");
    reveal_strlit("\u{f1c8} ");
    reveal_strlit("\u{f15c} ");
    if icon.len() == 2 && icon[0] == '★' && icon[1] == ' ' {
        assert(icon =~= "★ "@);
    }
    if icon.len() == 2 && icon[0] == '\u{f07b}' && icon[1] == ' ' {
        assert(icon =~= "\u{f07b} "@);
    }
    if icon.len() == 2 && icon[0] == '\u{f07c}' && icon[1] == ' ' {
        assert(icon =~= "\u{f07c} "@);
    }
    if icon.len() == 2 && icon[0] == '\u{f1c3}' && icon[1] == ' ' {
        assert(icon =~= "\u{f1c3} "@);
    }
    if icon.len() == 2 && icon[0] == '\u{f1c2}' && icon[1] == ' ' {
        assert(icon =~= "\u{f1c2} "@);
    }
    if icon.len() == 2 && icon[0] == '\u{f1c4}' && icon[1] == ' ' {
        assert(icon =~= "\u{f1c4} "@);
    }
    if icon.len() == 2 && icon[0] == '\u{f1c1}' && icon[1] == ' ' {
        assert(icon =~= "\u{f1c1} "@);
    }
    if icon.len() == 2 && icon[0] == '\u{f013}' && icon[1] == ' ' {
        assert(icon =~= "\u{f013} "@);
    }
    if icon.len() == 2 && icon[0] == '\u{f1c0}' && icon[1] == ' ' {
        assert(icon =~= "\u{f1c0} "@);
    }
    if icon.len() == 2 && icon[0] == '\u{f085}' && icon[1] == ' ' {
        assert(icon =~= "\u{f085} "@);
    }
    if icon.len() == 2 && icon[0] == '\u{f031}' && icon[1] == ' ' {
        assert(icon =~= "\u{f031} "@);
    }
    if icon.len() == 2 && icon[0] == '\u{f121}' && icon[1] == ' ' {
        assert(icon =~= "\u{f121} "@);
    }
    if icon.len() == 2 && icon[0] == '\u{f1c5}' && icon[1] == ' ' {
        assert(icon =~= "\u{f1c5} "@);
    }
    if icon.len() == 2 && icon[0] == '\u{f1c6}' && icon[1] == ' ' {
        assert(icon =~= "\u{f1c6} "@);
    }
    if icon.len() == 2 && icon[0] == '\u{f1c7}' && icon[1] == ' ' {
        assert(icon =~= "\u{f1c7} "@);
    }
    if icon.len() == 2 && icon[0] == '\u{f1c8}' && icon[1] == ' ' {
        assert(icon =~= "\u{f1c8} "@);
    }
    if icon.len() == 2 && icon[0] == '\u{f15c}' && icon[1] == ' ' {
        assert(icon =~= "\u{f15c} "@);
    }
}

} // verus!
