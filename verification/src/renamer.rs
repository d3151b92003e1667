use vstd::prelude::*;
use crate::pattern::{compile, is_match, pattern_compiles, pattern_matches, pattern_replaced, regex_pattern, replace_matches};
use crate::text::{file_stem};
use crate::unicode::{is_lowercase, is_numeric, lowercase_char, numeric_char, to_uppercase, uppercase_of};
use crate::options::name_view;
use crate::probe::VideoMetadata;
use crate::text::{chars_of, contains, ends_with, extend_chars, has_prefix, has_substring, has_suffix, join_from, joined, replace_all, replaced, rows, same_text, slice_chars, split, split_on, split_words, starts_with, string_of, texts, trim, trimmed, words};
use crate::unicode::{lowercase_of, to_lowercase};

verus! {

/// One film that a search of the film database found.
#[derive(Clone, Debug)]
pub struct MovieSearchResult {
    pub id: u64,
    pub title: String,
    /// The release date, the year first: `YYYY-MM-DD`.
    pub release_date: Option<String>,
    pub overview: String,
    pub poster_path: Option<String>,
}

/// The address of a film search: the query and the key as they are given,
/// results in French.
pub open spec fn search_address(query: Seq<char>, api_key: Seq<char>) -> Seq<char> {
    "https://api.themoviedb.org/3/search/movie?api_key="@ + api_key + "&query="@ + query
        + "&language=fr-FR"@
}

/// Writes the address of a film search.
pub fn search_url(query: &str, api_key: &str) -> (out: String)
    ensures
        out@ == search_address(query@, api_key@),
{
    let mut chars = chars_of("https://api.themoviedb.org/3/search/movie?api_key=");
    extend_chars(&mut chars, &chars_of(api_key));
    extend_chars(&mut chars, &chars_of("&query="));
    extend_chars(&mut chars, &chars_of(query));
    extend_chars(&mut chars, &chars_of("&language=fr-FR"));
    string_of(&chars)
}

/// The quality label for a frame height.
pub open spec fn quality_label(height: u64) -> Seq<char> {
    if height >= 2160 {
        "4K"@
    } else if height >= 1080 {
        "1080p"@
    } else if height >= 720 {
        "720p"@
    } else {
        "SD"@
    }
}

/// The year of a release date: what stands before its first hyphen.
pub open spec fn release_year(date: Seq<char>) -> Seq<char> {
    split_on(date, '-')[0]
}

/// The template with title and year filled in. Without a film the title is
/// `Unknown Title` and the year empty; with a film that has no release date
/// the year stays as the template has it.
pub open spec fn with_film(template: Seq<char>, film: Option<MovieSearchResult>) -> Seq<char> {
    match film {
        Some(info) => {
            let titled = replaced(template, "{title}"@, info.title@);
            match info.release_date {
                Some(date) => replaced(titled, "{year}"@, release_year(date@)),
                None => titled,
            }
        },
        None => replaced(
            replaced(template, "{title}"@, "Unknown Title"@),
            "{year}"@,
            Seq::<char>::empty(),
        ),
    }
}

/// The file name that a template gives: title, year, quality and codec
/// filled in, double blanks made single, blank space at the ends removed,
/// and `.mp4` at the end.
pub open spec fn filename_of(
    template: Seq<char>,
    film: Option<MovieSearchResult>,
    height: u64,
    codec: Seq<char>,
) -> Seq<char> {
    let filled = replaced(
        replaced(with_film(template, film), "{quality}"@, quality_label(height)),
        "{codec}"@,
        codec,
    );
    let tidy = trimmed(replaced(filled, "  "@, " "@));
    if has_suffix(tidy, ".mp4"@) {
        tidy
    } else {
        tidy + ".mp4"@
    }
}

fn fill(text: &Vec<char>, placeholder: &str, value: &Vec<char>) -> (out: Vec<char>)
    ensures
        out@ == replaced(text@, placeholder@, value@),
{
    replace_all(text, &chars_of(placeholder), value)
}

fn quality_label_text(height: u64) -> (out: Vec<char>)
    ensures
        out@ == quality_label(height),
{
    if height >= 2160 {
        chars_of("4K")
    } else if height >= 1080 {
        chars_of("1080p")
    } else if height >= 720 {
        chars_of("720p")
    } else {
        chars_of("SD")
    }
}

/// Makes a file name from a template with the placeholders `{title}`,
/// `{year}`, `{quality}` and `{codec}`.
pub fn generate_filename(
    metadata: &VideoMetadata,
    movie_info: Option<&MovieSearchResult>,
    template: &str,
) -> (out: String)
    ensures
        out@ == filename_of(
            template@,
            match movie_info {
                Some(info) => Some(*info),
                None => None,
            },
            metadata.height,
            metadata.video_codec@,
        ),
{
    let start = chars_of(template);
    let named: Vec<char> = match movie_info {
        Some(info) => {
            let titled = fill(&start, "{title}", &chars_of(info.title.as_str()));
            match &info.release_date {
                Some(date) => {
                    let parts = split(&chars_of(date.as_str()), '-');
                    assert(rows(parts@)[0] == parts@[0]@);
                    fill(&titled, "{year}", &parts[0])
                },
                None => titled,
            }
        },
        None => {
            let titled = fill(&start, "{title}", &chars_of("Unknown Title"));
            fill(&titled, "{year}", &Vec::new())
        },
    };
    let graded = fill(&named, "{quality}", &quality_label_text(metadata.height));
    let filled = fill(&graded, "{codec}", &chars_of(metadata.video_codec.as_str()));
    let mut tidy = trim(&fill(&filled, "  ", &chars_of(" ")));
    let suffix = chars_of(".mp4");
    if !ends_with(&tidy, &suffix) {
        extend_chars(&mut tidy, &suffix);
    }
    string_of(&tidy)
}

/// True for the characters that separate words in a file name: the dot
/// and the underscore, and the hyphen where `hyphens` says so.
pub open spec fn is_mark(c: char, hyphens: bool) -> bool {
    c == '.' || c == '_' || (hyphens && c == '-')
}

/// `s` with each separating character made a blank.
pub open spec fn blanked(s: Seq<char>, hyphens: bool) -> Seq<char> {
    s.map_values(|c: char| if is_mark(c, hyphens) {
        ' '
    } else {
        c
    })
}

/// The pattern that finds a word as a whole word, in any letter case.
pub open spec fn word_pattern(word: Seq<char>) -> Seq<char> {
    "(?i)\\b"@ + word + "\\b"@
}

/// `text` without the whole-word occurrences of `word`.
pub open spec fn without_word(text: Seq<char>, word: Seq<char>) -> Seq<char> {
    if pattern_compiles(word_pattern(word)) {
        pattern_replaced(word_pattern(word), text, Seq::<char>::empty())
    } else {
        text
    }
}

/// `text` without the whole-word occurrences of each of `tags`, taken out one after the other.
pub open spec fn without_words(text: Seq<char>, tags: Seq<Seq<char>>) -> Seq<char>
    decreases tags.len(),
{
    if tags.len() == 0 {
        text
    } else {
        without_word(without_words(text, tags.drop_last()), tags.last())
    }
}

/// The release tags that say nothing of the film itself.
pub open spec fn release_tags() -> Seq<Seq<char>> {
    seq![
        "x264"@,
        "x265"@,
        "h264"@,
        "h265"@,
        "hevc"@,
        "1080p"@,
        "720p"@,
        "4k"@,
        "2160p"@,
        "bluray"@,
        "web-dl"@,
        "webrip"@,
        "hdr"@,
        "10bit"@,
        "aac"@,
        "ac3"@,
        "dts"@,
        "multi"@,
        "vostfr"@,
        "french"@,
        "truefrench"@,
        "ulshd"@,
        "repack"@,
        "proper"@,
    ]
}

/// A word with its first character in upper case.
pub open spec fn capitalized(word: Seq<char>) -> Seq<char> {
    if word.len() == 0 {
        word
    } else {
        uppercase_of(seq![word[0]]) + word.skip(1)
    }
}

/// Each word capitalized.
pub open spec fn capitalized_all(parts: Seq<Seq<char>>) -> Seq<Seq<char>> {
    parts.map_values(|w: Seq<char>| capitalized(w))
}

/// The clean name for a file stem: dots and underscores made blanks, the
/// release tags taken out, each word capitalized, one blank between the
/// words, and `.mp4` at the end.
pub open spec fn cleaned_name(stem: Seq<char>) -> Seq<char> {
    joined(
        capitalized_all(words(without_words(blanked(stem, false), release_tags()))),
        " "@,
    ) + ".mp4"@
}

fn blank_out(s: &Vec<char>, hyphens: bool) -> (out: Vec<char>)
    ensures
        out@ == blanked(s@, hyphens),
{
    let mut out: Vec<char> = Vec::new();
    let mut i: usize = 0;
    while i < s.len()
        invariant
            i <= s.len(),
            out@ == blanked(s@.subrange(0, i as int), hyphens),
        decreases s.len() - i,
    {
        let c = s[i];
        if c == '.' || c == '_' || (hyphens && c == '-') {
            out.push(' ');
        } else {
            out.push(c);
        }
        i = i + 1;
        assert(out@ =~= blanked(s@.subrange(0, i as int), hyphens));
    }
    assert(s@.subrange(0, s.len() as int) =~= s@);
    out
}

fn tag_list() -> (out: Vec<String>)
    ensures
        texts(out@) == release_tags(),
{
    let mut out: Vec<String> = Vec::new();
    out.push("x264".to_owned());
    out.push("x265".to_owned());
    out.push("h264".to_owned());
    out.push("h265".to_owned());
    out.push("hevc".to_owned());
    out.push("1080p".to_owned());
    out.push("720p".to_owned());
    out.push("4k".to_owned());
    out.push("2160p".to_owned());
    out.push("bluray".to_owned());
    out.push("web-dl".to_owned());
    out.push("webrip".to_owned());
    out.push("hdr".to_owned());
    out.push("10bit".to_owned());
    out.push("aac".to_owned());
    out.push("ac3".to_owned());
    out.push("dts".to_owned());
    out.push("multi".to_owned());
    out.push("vostfr".to_owned());
    out.push("french".to_owned());
    out.push("truefrench".to_owned());
    out.push("ulshd".to_owned());
    out.push("repack".to_owned());
    out.push("proper".to_owned());
    assert(texts(out@) =~= release_tags());
    out
}

fn remove_word(text: String, word: &str) -> (out: String)
    ensures
        out@ == without_word(text@, word@),
{
    let mut pattern = chars_of("(?i)\\b");
    extend_chars(&mut pattern, &chars_of(word));
    extend_chars(&mut pattern, &chars_of("\\b"));
    let source = string_of(&pattern);
    proof {
        reveal_strlit("");
        assert(source@ =~= word_pattern(word@));
        assert(""@ =~= Seq::<char>::empty());
    }
    match compile(source.as_str()) {
        Ok(re) => replace_matches(&re, text.as_str(), ""),
        Err(_) => text,
    }
}

/// Puts the first character of a word in upper case.
pub fn capitalize(word: &Vec<char>) -> (out: Vec<char>)
    ensures
        out@ == capitalized(word@),
{
    if word.len() == 0 {
        return Vec::new();
    }
    let mut first: Vec<char> = Vec::new();
    first.push(word[0]);
    assert(first@ =~= seq![word@[0]]);
    let mut out = chars_of(to_uppercase(string_of(&first).as_str()).as_str());
    let rest = slice_chars(word, 1, word.len());
    assert(rest@ =~= word@.skip(1));
    extend_chars(&mut out, &rest);
    out
}

fn capitalize_all(parts: &Vec<Vec<char>>) -> (out: Vec<Vec<char>>)
    ensures
        rows(out@) == capitalized_all(rows(parts@)),
{
    let mut out: Vec<Vec<char>> = Vec::new();
    let mut i: usize = 0;
    while i < parts.len()
        invariant
            i <= parts.len(),
            out@.len() == i,
            forall|k: int| 0 <= k < i ==> (#[trigger] out@[k])@ == capitalized(parts@[k]@),
        decreases parts.len() - i,
    {
        out.push(capitalize(&parts[i]));
        i = i + 1;
    }
    assert(rows(out@) =~= capitalized_all(rows(parts@)));
    out
}

/// Makes the clean name for a file stem.
pub fn clean_stem(stem: &str) -> (out: String)
    ensures
        out@ == cleaned_name(stem@),
{
    let mut text = string_of(&blank_out(&chars_of(stem), false));
    let tags = tag_list();
    let ghost start = text@;
    let mut i: usize = 0;
    assert(texts(tags@).subrange(0, 0) =~= Seq::<Seq<char>>::empty());
    while i < tags.len()
        invariant
            i <= tags.len(),
            texts(tags@) == release_tags(),
            text@ == without_words(start, texts(tags@).subrange(0, i as int)),
        decreases tags.len() - i,
    {
        proof {
            let next = texts(tags@).subrange(0, i + 1);
            assert(next.drop_last() =~= texts(tags@).subrange(0, i as int));
            assert(next.last() == tags@[i as int]@);
        }
        text = remove_word(text, tags[i].as_str());
        i = i + 1;
    }
    assert(texts(tags@).subrange(0, tags.len() as int) =~= texts(tags@));
    let parts = capitalize_all(&split_words(&chars_of(text.as_str())));
    assert(rows(parts@).skip(0) =~= rows(parts@));
    let mut name = join_from(&parts, 0, &chars_of(" "));
    extend_chars(&mut name, &chars_of(".mp4"));
    string_of(&name)
}

/// Makes a clean name for a file: the name of its stem, or of the whole
/// text where it has no stem. Which part of a path is the stem is for the
/// platform to say.
pub fn clean_filename(file_name: &str) -> (out: String)
    ensures
        exists|stem: Seq<char>| out@ == #[trigger] cleaned_name(stem),
{
    match file_stem(file_name) {
        Some(stem) => clean_stem(stem.as_str()),
        None => clean_stem(file_name),
    }
}

/// What a file name says of the film and of its release, word by word.
#[derive(Clone, Debug)]
pub struct ParsedFilename {
    /// The words of the title, each as its characters.
    pub title: Vec<Vec<char>>,
    pub year: Option<Vec<char>>,
    /// Notes on the audio languages, such as `MULTI` or `VF`.
    pub audio_info: Vec<Vec<char>>,
    pub resolution: Option<Vec<char>>,
    pub video_codec: Option<Vec<char>>,
    pub audio_codec: Option<Vec<char>>,
    /// Where the release comes from, such as `BLURAY`.
    pub source: Option<Vec<char>>,
}

/// What a parsed file name holds, as plain values.
pub struct ParsedFacts {
    pub title: Seq<Seq<char>>,
    pub year: Option<Seq<char>>,
    pub audio_info: Seq<Seq<char>>,
    pub resolution: Option<Seq<char>>,
    pub video_codec: Option<Seq<char>>,
    pub audio_codec: Option<Seq<char>>,
    pub source: Option<Seq<char>>,
}

/// The view of an optional text.
pub open spec fn word_view(w: Option<Vec<char>>) -> Option<Seq<char>> {
    match w {
        Some(c) => Some(c@),
        None => None,
    }
}

impl View for ParsedFilename {
    type V = ParsedFacts;

    open spec fn view(&self) -> ParsedFacts {
        ParsedFacts {
            title: rows(self.title@),
            year: word_view(self.year),
            audio_info: rows(self.audio_info@),
            resolution: word_view(self.resolution),
            video_codec: word_view(self.video_codec),
            audio_codec: word_view(self.audio_codec),
            source: word_view(self.source),
        }
    }
}

/// The patterns that tell what a word of a file name is: in this order a
/// year, a resolution, a video codec, an audio codec, a note on the audio
/// languages, a source.
pub open spec fn word_patterns() -> Seq<Seq<char>> {
    seq![
        "^(19|20)\\d{2}$"@,
        "(?i)^(\\d+p|4k|2160p|1080p|720p|480p)$"@,
        "(?i)^(x264|x265|h264|h265|hevc|av1|vp9)$"@,
        "(?i)^(dts|ac3|eac3|aac|truehd|flac|opus)$"@,
        "(?i)^(multi|vf|vf2|vo|vostfr|french|truefrench)$"@,
        "(?i)^(bluray|web-dl|webrip|dvdrip|hdtv|bdrip)$"@,
    ]
}

/// True when the pattern compiles and matches the word.
pub open spec fn fits(pattern: Seq<char>, word: Seq<char>) -> bool {
    pattern_compiles(pattern) && pattern_matches(pattern, word)
}

/// True for the words that are dropped without a trace.
pub open spec fn is_noise(lower: Seq<char>) -> bool {
    lower == "chrisj72"@ || lower == "repack"@ || lower == "proper"@ || lower == "hdr"@ || lower
        == "10bit"@ || lower == "ulshd"@
}

/// True when every character of the word is a lowercase letter or numeric.
pub open spec fn all_small(word: Seq<char>) -> bool {
    forall|k: int| 0 <= k < word.len() ==> lowercase_char(#[trigger] word[k]) || numeric_char(word[k])
}

/// The number of bytes that a character takes in UTF-8.
pub open spec fn char_bytes(c: char) -> nat {
    if (c as u32) < 0x80 {
        1
    } else if (c as u32) < 0x800 {
        2
    } else if (c as u32) < 0x10000 {
        3
    } else {
        4
    }
}

/// The number of bytes that a text takes in UTF-8.
pub open spec fn byte_length(word: Seq<char>) -> nat
    decreases word.len(),
{
    if word.len() == 0 {
        0
    } else {
        byte_length(word.drop_last()) + char_bytes(word.last())
    }
}

/// True for a word that looks like the tag of a release group: in the
/// second half of the name, under five bytes long, all lowercase or numeric.
pub open spec fn is_group_tag(word: Seq<char>, position: nat, count: nat) -> bool {
    position > count / 2 && byte_length(word) < 5 && all_small(word)
}

/// The parse after one more word, the word standing at `position` of `count`.
pub open spec fn with_word(m: ParsedFacts, word: Seq<char>, position: nat, count: nat) -> ParsedFacts {
    let p = word_patterns();
    let lower = lowercase_of(word);
    let upper = uppercase_of(word);
    if fits(p[0], word) {
        ParsedFacts { year: Some(word), ..m }
    } else if fits(p[1], word) {
        ParsedFacts { resolution: Some(replaced(upper, "P"@, "p"@)), ..m }
    } else if fits(p[2], word) {
        ParsedFacts { video_codec: Some(upper), ..m }
    } else if fits(p[3], word) {
        ParsedFacts { audio_codec: Some(upper), ..m }
    } else if fits(p[4], word) {
        ParsedFacts { audio_info: m.audio_info.push(upper), ..m }
    } else if fits(p[5], word) {
        ParsedFacts { source: Some(upper), ..m }
    } else if lower == "vf"@ || lower == "vo"@ {
        ParsedFacts { audio_info: m.audio_info.push(upper), ..m }
    } else if has_prefix(lower, "multi"@) {
        ParsedFacts { audio_info: m.audio_info.push("MULTI"@), ..m }
    } else if is_noise(lower) || is_group_tag(word, position, count) {
        m
    } else {
        ParsedFacts { title: m.title.push(word), ..m }
    }
}

/// The parse before any word.
pub open spec fn nothing_parsed() -> ParsedFacts {
    ParsedFacts {
        title: Seq::<Seq<char>>::empty(),
        year: None,
        audio_info: Seq::<Seq<char>>::empty(),
        resolution: None,
        video_codec: None,
        audio_codec: None,
        source: None,
    }
}

/// The parse after the first `upto` of the words `parts`.
pub open spec fn parsed_words(parts: Seq<Seq<char>>, upto: nat) -> ParsedFacts
    decreases upto,
{
    if upto == 0 || upto > parts.len() {
        nothing_parsed()
    } else {
        with_word(
            parsed_words(parts, (upto - 1) as nat),
            parts[upto - 1],
            (upto - 1) as nat,
            parts.len(),
        )
    }
}

/// What a file stem says: dots, underscores and hyphens separate its words,
/// and each word is looked at in turn.
pub open spec fn parsed_stem(stem: Seq<char>) -> ParsedFacts {
    let parts = words(blanked(stem, true));
    parsed_words(parts, parts.len())
}

/// True when `re` is what compiling `pattern` gave.
pub open spec fn compiled_from(re: Result<regex::Regex, regex::Error>, pattern: Seq<char>) -> bool {
    match re {
        Ok(r) => pattern_compiles(pattern) && regex_pattern(r) == pattern,
        Err(_) => !pattern_compiles(pattern),
    }
}

fn accepts(re: &Result<regex::Regex, regex::Error>, word: &str, Ghost(pattern): Ghost<Seq<char>>) -> (r:
    bool)
    requires
        compiled_from(*re, pattern),
    ensures
        r == fits(pattern, word@),
{
    match re {
        Ok(r) => is_match(r, word),
        Err(_) => false,
    }
}

fn every_char_small(word: &Vec<char>) -> (r: bool)
    ensures
        r == all_small(word@),
{
    let mut k: usize = 0;
    while k < word.len()
        invariant
            k <= word.len(),
            forall|j: int|
                0 <= j < k ==> lowercase_char(#[trigger] word@[j]) || numeric_char(word@[j]),
        decreases word.len() - k,
    {
        if !(is_lowercase(word[k]) || is_numeric(word[k])) {
            return false;
        }
        k = k + 1;
    }
    true
}

fn shorter_than(word: &Vec<char>, limit: usize) -> (r: bool)
    ensures
        r == (byte_length(word@) < limit),
{
    if limit == 0 {
        return false;
    }
    let mut total: usize = 0;
    let mut k: usize = 0;
    assert(word@.subrange(0, 0) =~= Seq::<char>::empty());
    while k < word.len()
        invariant
            k <= word.len(),
            total == byte_length(word@.subrange(0, k as int)),
            total < limit,
        decreases word.len() - k,
    {
        let c = word[k];
        let code: u32 = c as u32;
        let size: usize = if code < 0x80 {
            1
        } else if code < 0x800 {
            2
        } else if code < 0x10000 {
            3
        } else {
            4
        };
        proof {
            let next = word@.subrange(0, k + 1);
            assert(next.drop_last() =~= word@.subrange(0, k as int));
            assert(next.last() == c);
            lemma_byte_length_prefix(word@, k + 1);
        }
        if size >= limit - total {
            return false;
        }
        total = total + size;
        k = k + 1;
    }
    assert(word@.subrange(0, word.len() as int) =~= word@);
    true
}

/// A text takes at least as many bytes as any of its prefixes.
pub proof fn lemma_byte_length_prefix(word: Seq<char>, k: int)
    requires
        0 <= k <= word.len(),
    ensures
        byte_length(word.subrange(0, k)) <= byte_length(word),
    decreases word.len() - k,
{
    if k == word.len() {
        assert(word.subrange(0, k) =~= word);
    } else {
        lemma_byte_length_prefix(word.drop_last(), k);
        assert(word.drop_last().subrange(0, k) =~= word.subrange(0, k));
    }
}

fn noise_word(lower: &str) -> (r: bool)
    ensures
        r == is_noise(lower@),
{
    str_is(lower, "chrisj72") || str_is(lower, "repack") || str_is(lower, "proper") || str_is(
        lower,
        "hdr",
    ) || str_is(lower, "10bit") || str_is(lower, "ulshd")
}

fn str_is(a: &str, b: &str) -> (r: bool)
    ensures
        r == (a@ == b@),
{
    same_text(&chars_of(a), &chars_of(b))
}

/// Reads what a file stem says of the film and of its release.
pub fn parse_stem(stem: &str) -> (parsed: ParsedFilename)
    ensures
        parsed@ == parsed_stem(stem@),
{
    let parts = split_words(&blank_out(&chars_of(stem), true));
    let ghost p = word_patterns();
    let year_re = compile("^(19|20)\\d{2}$");
    let resolution_re = compile("(?i)^(\\d+p|4k|2160p|1080p|720p|480p)$");
    let codec_re = compile("(?i)^(x264|x265|h264|h265|hevc|av1|vp9)$");
    let audio_codec_re = compile("(?i)^(dts|ac3|eac3|aac|truehd|flac|opus)$");
    let audio_info_re = compile("(?i)^(multi|vf|vf2|vo|vostfr|french|truefrench)$");
    let source_re = compile("(?i)^(bluray|web-dl|webrip|dvdrip|hdtv|bdrip)$");
    let mut parsed = ParsedFilename {
        title: Vec::new(),
        year: None,
        audio_info: Vec::new(),
        resolution: None,
        video_codec: None,
        audio_codec: None,
        source: None,
    };
    let n: usize = parts.len();
    let mut i: usize = 0;
    assert(parsed@ =~= nothing_parsed()) by {
        assert(rows(parsed.title@) =~= Seq::<Seq<char>>::empty());
        assert(rows(parsed.audio_info@) =~= Seq::<Seq<char>>::empty());
    }
    while i < n
        invariant
            i <= n,
            n == parts.len(),
            p == word_patterns(),
            rows(parts@) == words(blanked(stem@, true)),
            compiled_from(year_re, p[0]),
            compiled_from(resolution_re, p[1]),
            compiled_from(codec_re, p[2]),
            compiled_from(audio_codec_re, p[3]),
            compiled_from(audio_info_re, p[4]),
            compiled_from(source_re, p[5]),
            parsed@ == parsed_words(rows(parts@), i as nat),
        decreases n - i,
    {
        let part = &parts[i];
        let word = string_of(part);
        let w = word.as_str();
        let lower = to_lowercase(w);
        let upper = chars_of(to_uppercase(w).as_str());
        let ghost before = parsed@;
        proof {
            assert(rows(parts@)[i as int] == part@);
            assert(rows(parts@).len() == n);
        }
        if accepts(&year_re, w, Ghost(p[0])) {
            parsed.year = Some(chars_of(w));
        } else if accepts(&resolution_re, w, Ghost(p[1])) {
            parsed.resolution = Some(replace_all(&upper, &chars_of("P"), &chars_of("p")));
        } else if accepts(&codec_re, w, Ghost(p[2])) {
            parsed.video_codec = Some(upper);
        } else if accepts(&audio_codec_re, w, Ghost(p[3])) {
            parsed.audio_codec = Some(upper);
        } else if accepts(&audio_info_re, w, Ghost(p[4])) {
            let ghost shown = rows(parsed.audio_info@);
            parsed.audio_info.push(upper);
            assert(rows(parsed.audio_info@) =~= shown.push(upper@));
        } else if accepts(&source_re, w, Ghost(p[5])) {
            parsed.source = Some(upper);
        } else if str_is(lower.as_str(), "vf") || str_is(lower.as_str(), "vo") {
            let ghost shown = rows(parsed.audio_info@);
            parsed.audio_info.push(upper);
            assert(rows(parsed.audio_info@) =~= shown.push(upper@));
        } else if starts_with(&chars_of(lower.as_str()), &chars_of("multi")) {
            let ghost shown = rows(parsed.audio_info@);
            parsed.audio_info.push(chars_of("MULTI"));
            assert(rows(parsed.audio_info@) =~= shown.push("MULTI"@));
        } else if noise_word(lower.as_str()) || (i > n / 2 && shorter_than(part, 5) && every_char_small(
            part,
        )) {
        } else {
            let ghost shown = rows(parsed.title@);
            parsed.title.push(chars_of(w));
            assert(rows(parsed.title@) =~= shown.push(part@));
        }
        assert(parsed@ == with_word(before, part@, i as nat, n as nat));
        i = i + 1;
    }
    parsed
}

/// The resolution label for a frame height.
pub open spec fn height_label(height: u64) -> Seq<char> {
    if height >= 2160 {
        "2160p"@
    } else if height >= 1080 {
        "1080p"@
    } else if height >= 720 {
        "720p"@
    } else if height >= 480 {
        "480p"@
    } else {
        "SD"@
    }
}

/// True for the encoder names that write H.264.
pub open spec fn is_h264_encoder(lower: Seq<char>) -> bool {
    lower == "libx264"@ || lower == "h264"@ || lower == "h264_nvenc"@ || lower == "h264_qsv"@
        || lower == "h264_vaapi"@ || lower == "h264_videotoolbox"@ || lower == "h264_amf"@
}

/// True for the encoder names that write H.265.
pub open spec fn is_h265_encoder(lower: Seq<char>) -> bool {
    lower == "libx265"@ || lower == "hevc"@ || lower == "hevc_nvenc"@ || lower == "hevc_qsv"@
        || lower == "hevc_vaapi"@ || lower == "hevc_videotoolbox"@ || lower == "hevc_amf"@
}

/// The codec label for the encoder that writes the output. An encoder that
/// is not known and names no known codec keeps its own name.
pub open spec fn output_codec_label(encoder: Seq<char>) -> Seq<char> {
    let lower = lowercase_of(encoder);
    if is_h264_encoder(lower) {
        "x264"@
    } else if is_h265_encoder(lower) {
        "x265"@
    } else if lower == "libsvtav1"@ || lower == "libaom-av1"@ {
        "AV1"@
    } else if lower == "libvpx-vp9"@ {
        "VP9"@
    } else if has_substring(lower, "264"@) {
        "x264"@
    } else if has_substring(lower, "265"@) || has_substring(lower, "hevc"@) {
        "x265"@
    } else {
        encoder
    }
}

/// The codec label for the codec of the input; `x264` for an unknown codec.
pub open spec fn input_codec_label(codec: Seq<char>) -> Seq<char> {
    let lower = lowercase_of(codec);
    if lower == "h265"@ || lower == "hevc"@ {
        "x265"@
    } else if lower == "av1"@ {
        "AV1"@
    } else if lower == "vp9"@ {
        "VP9"@
    } else {
        "x264"@
    }
}

/// The label for an audio codec: its name in upper case, the variants of
/// DTS and of AC3 under their family's name.
pub open spec fn audio_codec_label(codec: Seq<char>) -> Seq<char> {
    let upper = uppercase_of(codec);
    if upper == "DTS-HD"@ || upper == "DTS-HD MA"@ {
        "DTS"@
    } else if upper == "EAC3"@ {
        "AC3"@
    } else {
        upper
    }
}

/// `acc` with the first `upto` notes of `info` added, each once, `MULTI` left out.
pub open spec fn with_notes(acc: Seq<Seq<char>>, info: Seq<Seq<char>>, upto: nat) -> Seq<Seq<char>>
    decreases upto,
{
    if upto == 0 || upto > info.len() {
        acc
    } else {
        let before = with_notes(acc, info, (upto - 1) as nat);
        let note = info[upto - 1];
        if note != "MULTI"@ && !before.contains(note) {
            before.push(note)
        } else {
            before
        }
    }
}

/// The notes on the audio languages: `MULTI` first where the file has
/// several audio tracks or its name says so, then the other notes of the
/// name, each once.
pub open spec fn audio_notes(info: Seq<Seq<char>>, several: bool) -> Seq<Seq<char>> {
    let base = if several || info.contains("MULTI"@) {
        seq!["MULTI"@]
    } else {
        Seq::<Seq<char>>::empty()
    };
    with_notes(base, info, info.len())
}

/// A text as a one-element sequence; nothing for the empty text.
pub open spec fn optional_part(text: Seq<char>) -> Seq<Seq<char>> {
    if text.len() == 0 {
        Seq::<Seq<char>>::empty()
    } else {
        seq![text]
    }
}

/// A text, or the empty text where there is none.
pub open spec fn word_or_empty(w: Option<Seq<char>>) -> Seq<char> {
    match w {
        Some(t) => t,
        None => Seq::<char>::empty(),
    }
}

/// The release name for a file stem: title, year, audio notes, resolution,
/// audio codec and video codec with dots between them, then the container.
/// What the stem does not say comes from the metadata; the video codec is
/// that of the output encoder where one is given.
pub open spec fn smart_name(
    stem: Seq<char>,
    metadata: VideoMetadata,
    output_encoder: Option<Seq<char>>,
    container: Seq<char>,
) -> Seq<char> {
    let parsed = parsed_stem(stem);
    let title = if parsed.title.len() > 0 {
        joined(parsed.title, "."@)
    } else {
        joined(capitalized_all(words(blanked(stem, true))), "."@)
    };
    let resolution = match parsed.resolution {
        Some(r) => r,
        None => height_label(metadata.height),
    };
    let video = match output_encoder {
        Some(encoder) => output_codec_label(encoder),
        None => match parsed.video_codec {
            Some(c) => c,
            None => input_codec_label(metadata.video_codec@),
        },
    };
    let audio = match parsed.audio_codec {
        Some(c) => c,
        None => if metadata.audio_tracks@.len() > 0 {
            audio_codec_label(metadata.audio_tracks@[0].codec@)
        } else {
            Seq::<char>::empty()
        },
    };
    let parts = optional_part(title) + optional_part(word_or_empty(parsed.year)) + audio_notes(
        parsed.audio_info,
        metadata.audio_tracks@.len() > 1,
    ) + seq![resolution] + optional_part(audio) + seq![video];
    trimmed(replaced(joined(parts, "."@) + "."@ + container, ".."@, "."@))
}

fn holds(list: &Vec<Vec<char>>, word: &Vec<char>) -> (r: bool)
    ensures
        r == rows(list@).contains(word@),
{
    let mut k: usize = 0;
    while k < list.len()
        invariant
            k <= list.len(),
            forall|j: int| 0 <= j < k ==> rows(list@)[j] != word@,
        decreases list.len() - k,
    {
        assert(rows(list@)[k as int] == list@[k as int]@);
        if same_text(&list[k], word) {
            return true;
        }
        k = k + 1;
    }
    false
}

fn push_part(parts: &mut Vec<Vec<char>>, part: Vec<char>)
    ensures
        rows(final(parts)@) == rows(old(parts)@).push(part@),
{
    let ghost before = parts@;
    parts.push(part);
    assert(rows(parts@) =~= rows(before).push(part@));
}

fn push_optional_part(parts: &mut Vec<Vec<char>>, part: Vec<char>)
    ensures
        rows(final(parts)@) == rows(old(parts)@) + optional_part(part@),
{
    if part.len() > 0 {
        push_part(parts, part);
        assert(rows(parts@) =~= rows(old(parts)@) + optional_part(part@));
    } else {
        assert(rows(parts@) =~= rows(old(parts)@) + optional_part(part@));
    }
}

fn push_audio_notes(parts: &mut Vec<Vec<char>>, info: &Vec<Vec<char>>, several: bool)
    ensures
        rows(final(parts)@) == rows(old(parts)@) + audio_notes(rows(info@), several),
{
    let multi = chars_of("MULTI");
    let mut notes: Vec<Vec<char>> = Vec::new();
    if several || holds(info, &multi) {
        push_part(&mut notes, chars_of("MULTI"));
    }
    assert(rows(notes@) =~= if several || rows(info@).contains("MULTI"@) {
        seq!["MULTI"@]
    } else {
        Seq::<Seq<char>>::empty()
    });
    let ghost base = rows(notes@);
    let mut k: usize = 0;
    while k < info.len()
        invariant
            k <= info.len(),
            multi@ == "MULTI"@,
            rows(notes@) == with_notes(base, rows(info@), k as nat),
        decreases info.len() - k,
    {
        assert(rows(info@)[k as int] == info@[k as int]@);
        if !same_text(&info[k], &multi) && !holds(&notes, &info[k]) {
            push_part(&mut notes, copy_word(&info[k]));
        }
        k = k + 1;
    }
    assert(rows(info@).len() == info.len());
    let mut j: usize = 0;
    assert(rows(notes@).subrange(0, 0) =~= Seq::<Seq<char>>::empty());
    assert(rows(parts@) =~= rows(old(parts)@) + rows(notes@).subrange(0, 0));
    while j < notes.len()
        invariant
            j <= notes.len(),
            rows(parts@) == rows(old(parts)@) + rows(notes@).subrange(0, j as int),
        decreases notes.len() - j,
    {
        let ghost shown = rows(parts@);
        assert(rows(notes@)[j as int] == notes@[j as int]@);
        push_part(parts, copy_word(&notes[j]));
        j = j + 1;
        assert(rows(parts@) =~= rows(old(parts)@) + rows(notes@).subrange(0, j as int));
    }
    assert(rows(notes@).subrange(0, notes.len() as int) =~= rows(notes@));
}

fn height_label_text(height: u64) -> (out: Vec<char>)
    ensures
        out@ == height_label(height),
{
    if height >= 2160 {
        chars_of("2160p")
    } else if height >= 1080 {
        chars_of("1080p")
    } else if height >= 720 {
        chars_of("720p")
    } else if height >= 480 {
        chars_of("480p")
    } else {
        chars_of("SD")
    }
}

/// Chooses the codec label for the encoder that writes the output.
pub fn output_codec_name(encoder: &str) -> (out: Vec<char>)
    ensures
        out@ == output_codec_label(encoder@),
{
    let lower_text = to_lowercase(encoder);
    let l = lower_text.as_str();
    let lower = chars_of(l);
    if str_is(l, "libx264") || str_is(l, "h264") || str_is(l, "h264_nvenc") || str_is(l, "h264_qsv")
        || str_is(l, "h264_vaapi") || str_is(l, "h264_videotoolbox") || str_is(l, "h264_amf") {
        chars_of("x264")
    } else if str_is(l, "libx265") || str_is(l, "hevc") || str_is(l, "hevc_nvenc") || str_is(
        l,
        "hevc_qsv",
    ) || str_is(l, "hevc_vaapi") || str_is(l, "hevc_videotoolbox") || str_is(l, "hevc_amf") {
        chars_of("x265")
    } else if str_is(l, "libsvtav1") || str_is(l, "libaom-av1") {
        chars_of("AV1")
    } else if str_is(l, "libvpx-vp9") {
        chars_of("VP9")
    } else if contains(&lower, &chars_of("264")) {
        chars_of("x264")
    } else if contains(&lower, &chars_of("265")) || contains(&lower, &chars_of("hevc")) {
        chars_of("x265")
    } else {
        chars_of(encoder)
    }
}

/// Chooses the codec label for the codec of the input.
pub fn input_codec_name(codec: &str) -> (out: Vec<char>)
    ensures
        out@ == input_codec_label(codec@),
{
    let lower = to_lowercase(codec);
    let l = lower.as_str();
    if str_is(l, "h265") || str_is(l, "hevc") {
        chars_of("x265")
    } else if str_is(l, "av1") {
        chars_of("AV1")
    } else if str_is(l, "vp9") {
        chars_of("VP9")
    } else {
        chars_of("x264")
    }
}

/// Chooses the label for an audio codec.
pub fn audio_codec_name(codec: &str) -> (out: Vec<char>)
    ensures
        out@ == audio_codec_label(codec@),
{
    let upper = to_uppercase(codec);
    let u = upper.as_str();
    if str_is(u, "DTS-HD") || str_is(u, "DTS-HD MA") {
        chars_of("DTS")
    } else if str_is(u, "EAC3") {
        chars_of("AC3")
    } else {
        chars_of(u)
    }
}

fn copy_word(w: &Vec<char>) -> (out: Vec<char>)
    ensures
        out@ == w@,
{
    let out = slice_chars(w, 0, w.len());
    assert(out@ =~= w@);
    out
}

/// Makes the release name for a file stem.
pub fn smart_stem_name(
    stem: &str,
    metadata: &VideoMetadata,
    output_video_codec: Option<&str>,
    container: &str,
) -> (out: String)
    ensures
        out@ == smart_name(
            stem@,
            *metadata,
            name_view(output_video_codec),
            container@,
        ),
{
    let parsed = parse_stem(stem);
    let dot = chars_of(".");
    let title: Vec<char> = if parsed.title.len() > 0 {
        assert(rows(parsed.title@).skip(0) =~= rows(parsed.title@));
        join_from(&parsed.title, 0, &dot)
    } else {
        let parts = capitalize_all(&split_words(&blank_out(&chars_of(stem), true)));
        assert(rows(parts@).skip(0) =~= rows(parts@));
        join_from(&parts, 0, &dot)
    };
    let year: Vec<char> = match &parsed.year {
        Some(y) => copy_word(y),
        None => Vec::new(),
    };
    let resolution: Vec<char> = match &parsed.resolution {
        Some(r) => copy_word(r),
        None => height_label_text(metadata.height),
    };
    let video: Vec<char> = match output_video_codec {
        Some(encoder) => output_codec_name(encoder),
        None => match &parsed.video_codec {
            Some(c) => copy_word(c),
            None => input_codec_name(metadata.video_codec.as_str()),
        },
    };
    let audio: Vec<char> = match &parsed.audio_codec {
        Some(c) => copy_word(c),
        None => if metadata.audio_tracks.len() > 0 {
            audio_codec_name(metadata.audio_tracks[0].codec.as_str())
        } else {
            Vec::new()
        },
    };
    let ghost facts = parsed_stem(stem@);
    let ghost expected = optional_part(title@) + optional_part(year@) + audio_notes(
        facts.audio_info,
        metadata.audio_tracks@.len() > 1,
    ) + seq![resolution@] + optional_part(audio@) + seq![video@];
    proof {
        assert(parsed@ == facts);
        assert(rows(parsed.title@) == facts.title);
        assert(rows(parsed.title@).len() == parsed.title@.len());
        assert(year@ == word_or_empty(facts.year));
        assert(rows(parsed.audio_info@) == facts.audio_info);
    }
    let mut parts: Vec<Vec<char>> = Vec::new();
    assert(rows(parts@) =~= Seq::<Seq<char>>::empty());
    push_optional_part(&mut parts, title);
    push_optional_part(&mut parts, year);
    push_audio_notes(&mut parts, &parsed.audio_info, metadata.audio_tracks.len() > 1);
    push_part(&mut parts, resolution);
    push_optional_part(&mut parts, audio);
    push_part(&mut parts, video);
    assert(rows(parts@) =~= expected);
    assert(rows(parts@).skip(0) =~= rows(parts@));
    let mut name = join_from(&parts, 0, &dot);
    extend_chars(&mut name, &dot);
    extend_chars(&mut name, &chars_of(container));
    let tidy = trim(&replace_all(&name, &chars_of(".."), &dot));
    string_of(&tidy)
}

/// Makes the release name for a file from what its name says and from its
/// metadata. Which part of a path is the stem is for the platform to say;
/// a path without a stem stands for its own stem.
pub fn generate_smart_filename(
    file_name: &str,
    metadata: &VideoMetadata,
    output_video_codec: Option<&str>,
    container: &str,
) -> (out: String)
    ensures
        exists|stem: Seq<char>|
            out@ == #[trigger] smart_name(
                stem,
                *metadata,
                name_view(output_video_codec),
                container@,
            ),
{
    match file_stem(file_name) {
        Some(stem) => smart_stem_name(stem.as_str(), metadata, output_video_codec, container),
        None => smart_stem_name(file_name, metadata, output_video_codec, container),
    }
}

/// Reads what the name of a file says of the film and of its release.
pub fn parse_filename_intelligently(file_name: &str) -> (parsed: ParsedFilename)
    ensures
        exists|stem: Seq<char>| parsed@ == #[trigger] parsed_stem(stem),
{
    match file_stem(file_name) {
        Some(stem) => parse_stem(stem.as_str()),
        None => parse_stem(file_name),
    }
}

} // verus!
