//! Naming a screenshot.
//!
//! The name wants to be local time, expanded by the C library's `strftime`, so that every
//! conversion it documents works. Reading the clock and expanding the template is left to the
//! program around this; what came of it is handed in as an [`Expansion`].

use crate::config::Save;
use crate::path;
use crate::path::UnixPath;
use crate::text;
use crate::xdg;
use crate::xdg::Env;
use vstd::prelude::*;

verus! {

/// The extension, and the only format written.
pub const EXTENSION: &'static str = "png";

/// How long a formatted name may be. Generous -- the default is thirty characters -- but
/// `strftime` needs a bound, and a template that expands past this is a mistake worth naming.
pub const NAME_MAX: usize = 512;

/// What came of expanding a template against the local time.
#[derive(Debug)]
pub enum Expansion {
    /// The system clock could not be read as a local time.
    NoClock,
    /// The bytes that were written, which are none when they would not have fit.
    Written(Vec<u8>),
}

/// Why a template gives no name.
#[derive(Debug, Clone, Copy, PartialEq, Eq, Structural)]
pub enum NameError {
    /// The template contains a NUL byte, which would cut it short.
    Nul,
    /// The system clock could not be read as a local time.
    NoClock,
    /// The template expanded to nothing, or to more than a name may hold.
    Length,
}

impl NameError {
    /// What the user is told.
    pub open spec fn text(self) -> Seq<char> {
        match self {
            NameError::Nul => "the filename template contains a NUL byte"@,
            NameError::NoClock => "the system clock could not be read as a local time"@,
            NameError::Length =>
                "the filename template expanded to nothing, or to more than this program will use as a name"@,
        }
    }

    /// What the user is told.
    pub fn message(self) -> (r: &'static str)
        ensures
            r@ == self.text(),
    {
        match self {
            NameError::Nul => "the filename template contains a NUL byte",
            NameError::NoClock => "the system clock could not be read as a local time",
            NameError::Length =>
                "the filename template expanded to nothing, or to more than this program will use as a name",
        }
    }
}

/// The text that bytes hold, with what is not UTF-8 in them replaced.
pub uninterp spec fn lossy_text(bytes: Seq<u8>) -> Seq<char>;

/// `String::from_utf8_lossy`: the text that the bytes hold. Bytes that are valid UTF-8 are
/// decoded; of others the contract says only that the text is a function of them, and not what
/// replaces what is invalid.
#[verifier::external_body]
fn from_utf8_lossy(bytes: &Vec<u8>) -> (r: String)
    ensures
        r@ == lossy_text(bytes@),
        vstd::utf8::valid_utf8(bytes@) ==> r@ == vstd::utf8::decode_utf8(bytes@),
{
    String::from_utf8_lossy(bytes).into_owned()
}

/// `c`, or an underscore where `c` cannot be part of one path component.
pub open spec fn safe_char(c: char) -> char {
    if c == '/' || c == '\0' {
        '_'
    } else {
        c
    }
}

/// `name` with what cannot be part of one path component replaced, and without the white space
/// around it.
pub open spec fn cleaned(name: Seq<char>) -> Seq<char> {
    text::trim(name.map_values(|c: char| safe_char(c)))
}

/// Whether a text is no name at all: nothing, or one of the two directory entries that are not
/// names.
pub open spec fn nameless(name: Seq<char>) -> bool {
    name == ""@ || name == "."@ || name == ".."@
}

/// A formatted name made safe to be one path component.
pub open spec fn sanitized(name: Seq<char>) -> Seq<char> {
    if nameless(cleaned(name)) {
        "Screenshot"@
    } else {
        cleaned(name)
    }
}

/// Make a formatted name safe to be one path component.
///
/// The template is checked, but its *expansion* is not the same string: `%x` is a locale's date
/// and in plenty of locales that contains slashes, which would silently turn one name into a
/// directory path. Anything not plainly safe becomes an underscore.
pub fn sanitize(name: &str) -> (r: String)
    ensures
        r@ == sanitized(name@),
{
    let chars = text::chars_of(name);
    let mut clean: Vec<char> = Vec::new();
    let ghost mapped = name@.map_values(|c: char| safe_char(c));
    let mut i: usize = 0;
    while i < chars.len()
        invariant
            i <= chars@.len(),
            chars@ == name@,
            mapped == name@.map_values(|c: char| safe_char(c)),
            clean@ == mapped.take(i as int),
        decreases chars@.len() - i,
    {
        let c = chars[i];
        clean.push(if c == '/' || c == '\0' { '_' } else { c });
        assert(mapped.take(i + 1) == mapped.take(i as int).push(mapped[i as int]));
        i += 1;
    }
    assert(mapped.take(i as int) == mapped);
    let trimmed = text::trimmed(&clean);
    let name = text::whole(&trimmed);
    if text::same_text(name.as_str(), "") || text::same_text(name.as_str(), ".")
        || text::same_text(name.as_str(), "..") {
        return "Screenshot".to_string();
    }
    name
}

/// The name that an expansion gives.
pub open spec fn expansion_name(expansion: Expansion) -> Result<Seq<char>, NameError> {
    match expansion {
        Expansion::NoClock => Err(NameError::NoClock),
        Expansion::Written(bytes) => if bytes@.len() == 0 {
            Err(NameError::Length)
        } else {
            Ok(sanitized(lossy_text(bytes@)))
        },
    }
}

/// Whether what an expansion wrote is read as the text that it encodes, where it encodes one.
pub open spec fn read_as_written(expansion: Expansion) -> bool {
    match expansion {
        Expansion::NoClock => true,
        Expansion::Written(bytes) => bytes@.len() > 0 && vstd::utf8::valid_utf8(bytes@)
            ==> lossy_text(bytes@) == vstd::utf8::decode_utf8(bytes@),
    }
}

/// A name that may not be there, taken by its view.
pub open spec fn name_view(name: Result<String, NameError>) -> Result<Seq<char>, NameError> {
    match name {
        Ok(name) => Ok(name@),
        Err(why) => Err(why),
    }
}

/// The name that an expansion gives.
pub fn expanded_name(expansion: Expansion) -> (r: Result<String, NameError>)
    ensures
        name_view(r) == expansion_name(expansion),
        read_as_written(expansion),
{
    match expansion {
        Expansion::NoClock => Err(NameError::NoClock),
        Expansion::Written(bytes) => {
            if bytes.len() == 0 {
                return Err(NameError::Length);
            }
            let text = from_utf8_lossy(&bytes);
            Ok(sanitize(text.as_str()))
        },
    }
}

/// Whether expanding `template`, as `expand` does that, can have given `name`.
pub open spec fn formatted<F: Fn(&str) -> Expansion>(
    template: &str,
    expand: F,
    name: Result<Seq<char>, NameError>,
) -> bool {
    if template@.contains('\0') {
        name == Err::<Seq<char>, NameError>(NameError::Nul)
    } else {
        exists|expansion: Expansion|
            #![trigger call_ensures(expand, (template,), expansion)]
            {
                &&& call_ensures(expand, (template,), expansion)
                &&& name == expansion_name(expansion)
                &&& read_as_written(expansion)
            }
    }
}

/// Expand a `strftime` template against the local time now, as `expand` does that.
///
/// A template with a NUL byte is refused rather than truncated, and never reaches `expand`.
pub fn format_name<F: Fn(&str) -> Expansion>(template: &str, expand: F) -> (r: Result<
    String,
    NameError,
>)
    requires
        !template@.contains('\0') ==> call_requires(expand, (template,)),
    ensures
        formatted(template, expand, name_view(r)),
{
    let chars = text::chars_of(template);
    let mut i: usize = 0;
    while i < chars.len()
        invariant
            i <= chars@.len(),
            chars@ == template@,
            forall|j: int| 0 <= j < i ==> chars@[j] != '\0',
        decreases chars@.len() - i,
    {
        if chars[i] == '\0' {
            assert(template@[i as int] == '\0');
            return Err(NameError::Nul);
        }
        i += 1;
    }
    let expansion = expand(template);
    expanded_name(expansion)
}

/// The name of the `n`th file to be called `base`: `base.png`, then `base-2.png` and upward.
pub open spec fn candidate_name(base: Seq<char>, n: nat) -> Seq<char> {
    if n <= 1 {
        base + "."@ + EXTENSION@
    } else {
        base + "-"@ + text::decimal(n) + "."@ + EXTENSION@
    }
}

/// The path of the `n`th file in `dir` to be called `base`.
pub open spec fn candidate(dir: Seq<u8>, base: Seq<char>, n: nat) -> Seq<u8> {
    path::joined(dir, path::bytes_of(candidate_name(base, n)))
}

/// The last number that is tried. Counting stops at a bound rather than looping forever against
/// a directory nothing can be written to.
pub const LAST_CANDIDATE: u32 = 1000;

/// Whether asking `exists` about the path whose bytes are `path` can have given `answer`.
pub open spec fn answered<F: Fn(&UnixPath) -> bool>(
    exists_at: F,
    path: Seq<u8>,
    answer: bool,
) -> bool {
    exists|p: UnixPath| p@ == path && #[trigger] call_ensures(exists_at, (&p,), answer)
}

/// The path of the `n`th file in `dir` to be called `base`.
fn candidate_path(dir: &UnixPath, base: &str, n: u32) -> (r: UnixPath)
    ensures
        r@ == candidate(dir@, base@, n as nat),
{
    let mut name = String::new();
    name.append(base);
    if n > 1 {
        name.append("-");
        let digits = text::write_decimal(n);
        name.append(digits.as_str());
    }
    name.append(".");
    name.append(EXTENSION);
    assert(name@ =~= candidate_name(base@, n as nat));
    dir.join(name.as_str())
}

/// Whether `path` is the first free one for a file in `dir` to be called `base`, as far as
/// `exists_at` can have told, or the last that is tried.
pub open spec fn chosen<F: Fn(&UnixPath) -> bool>(
    dir: Seq<u8>,
    base: Seq<char>,
    exists_at: F,
    path: Seq<u8>,
) -> bool {
    exists|n: nat|
        #![trigger candidate(dir, base, n)]
        {
            &&& 1 <= n <= LAST_CANDIDATE
            &&& path == candidate(dir, base, n)
            &&& forall|k: nat|
                1 <= k < n ==> answered(exists_at, #[trigger] candidate(dir, base, k), true)
            &&& n < LAST_CANDIDATE ==> answered(exists_at, path, false)
        }
}

/// `dir/base.png`, or `dir/base-2.png` and upward if that exists, as `exists_at` tells.
///
/// Two screenshots inside one second is a real thing -- holding Print down does it -- and
/// silently overwriting the first would lose it. A thousand of them is not a case worth more
/// code than this: the last candidate is returned and overwritten, which is visible, rather than
/// failing the save.
pub fn unique<F: Fn(&UnixPath) -> bool>(dir: &UnixPath, base: &str, exists_at: F) -> (r: UnixPath)
    requires
        forall|p: UnixPath| #[trigger] call_requires(exists_at, (&p,)),
    ensures
        chosen(dir@, base@, exists_at, r@),
{
    let mut n: u32 = 1;
    while n < LAST_CANDIDATE
        invariant
            1 <= n <= LAST_CANDIDATE,
            forall|p: UnixPath| #[trigger] call_requires(exists_at, (&p,)),
            forall|k: nat|
                1 <= k < n ==> answered(exists_at, #[trigger] candidate(dir@, base@, k), true),
        decreases LAST_CANDIDATE - n,
    {
        let path = candidate_path(dir, base, n);
        if !exists_at(&path) {
            return path;
        }
        n += 1;
    }
    candidate_path(dir, base, LAST_CANDIDATE)
}

/// Why there is no place for a shot.
#[derive(Debug)]
pub enum DestinationError {
    /// Nothing says where shots go.
    NoPlace,
    /// The directory could not be made, and why.
    Directory(String),
    /// There is no name for the file.
    Name(NameError),
}

impl DestinationError {
    /// What the program says about it.
    pub open spec fn text(self) -> Seq<char> {
        match self {
            DestinationError::NoPlace =>
                "no place to save: neither the config file nor $HOME says where"@,
            DestinationError::Directory(why) => why@,
            DestinationError::Name(error) => error.text(),
        }
    }

    pub fn message(&self) -> (r: String)
        ensures
            r@ == self.text(),
    {
        match self {
            DestinationError::NoPlace =>
                "no place to save: neither the config file nor $HOME says where".to_string(),
            DestinationError::Directory(why) => why.clone(),
            DestinationError::Name(error) => error.message().to_string(),
        }
    }
}

/// Whether making the directory whose path is `dir` can have gone well, or can have failed with
/// `failure`.
pub open spec fn made<M: Fn(&UnixPath) -> Result<(), String>>(
    make_dir: M,
    dir: Seq<u8>,
    failure: Option<String>,
) -> bool {
    exists|p: UnixPath, outcome: Result<(), String>|
        #![trigger call_ensures(make_dir, (&p,), outcome)]
        {
            &&& p@ == dir
            &&& call_ensures(make_dir, (&p,), outcome)
            &&& match failure {
                None => outcome is Ok,
                Some(why) => outcome == Err::<(), String>(why),
            }
        }
}

/// Where a shot would be saved, creating the directory if it is not there.
///
/// The directory is created rather than required: a machine where nobody has taken a screenshot
/// yet has no `~/Pictures/Screenshots`, and that is the ordinary case rather than something to
/// fail on. `make_dir` does that, `expand` is a template's expansion against the local time, and
/// `exists_at` tells whether a file is there.
pub fn destination<M, F, X>(
    config: &Save,
    env: &Env,
    user_dirs: Option<&str>,
    make_dir: M,
    expand: F,
    exists_at: X,
) -> (r: Result<UnixPath, DestinationError>) where
    M: Fn(&UnixPath) -> Result<(), String>,
    F: Fn(&str) -> Expansion,
    X: Fn(&UnixPath) -> bool,

    requires
        forall|p: UnixPath| #[trigger] call_requires(make_dir, (&p,)),
        forall|t: &str| #[trigger] call_requires(expand, (t,)),
        forall|p: UnixPath| #[trigger] call_requires(exists_at, (&p,)),
    ensures
        match config.target(*env, xdg::text_view(user_dirs)) {
            None => r matches Err(error) && error is NoPlace,
            Some(dir) => destination_is(config.filename, dir, make_dir, expand, exists_at, r),
        },
{
    let Some(dir) = config.directory(env, user_dirs) else {
        return Err(DestinationError::NoPlace);
    };
    if let Err(why) = make_dir(&dir) {
        return Err(DestinationError::Directory(why));
    }
    assert(made(make_dir, dir@, None));
    let template = config.filename.as_str();
    let name = format_name(template, expand);
    assert(formatted(template, expand, name_view(name)));
    match name {
        Err(error) => Err(DestinationError::Name(error)),
        Ok(base) => Ok(unique(&dir, base.as_str(), exists_at)),
    }
}

/// What comes of looking for a place in the directory `dir`: a failure to make it, a failure to
/// name the file, or the first free name in it.
pub open spec fn destination_is<M, F, X>(
    filename: String,
    dir: Seq<u8>,
    make_dir: M,
    expand: F,
    exists_at: X,
    r: Result<UnixPath, DestinationError>,
) -> bool where
    M: Fn(&UnixPath) -> Result<(), String>,
    F: Fn(&str) -> Expansion,
    X: Fn(&UnixPath) -> bool,
 {
    match r {
        Err(DestinationError::NoPlace) => false,
        Err(DestinationError::Directory(why)) => made(make_dir, dir, Some(why)),
        Err(DestinationError::Name(error)) => made(make_dir, dir, None) && exists|t: &str|
            t@ == filename@ && #[trigger] formatted(
                t,
                expand,
                Err::<Seq<char>, NameError>(error),
            ),
        Ok(path) => made(make_dir, dir, None) && exists|t: &str, base: Seq<char>|
            #![trigger formatted(t, expand, Ok::<Seq<char>, NameError>(base))]
            {
                &&& t@ == filename@
                &&& formatted(t, expand, Ok::<Seq<char>, NameError>(base))
                &&& chosen(dir, base, exists_at, path@)
            },
    }
}

/// What is trimmed keeps only characters that were there.
proof fn trimming_adds_nothing(s: Seq<char>, c: char)
    requires
        !s.contains(c),
    ensures
        !text::trim_start(s).contains(c),
        !text::trim_end(s).contains(c),
    decreases s.len(),
{
    if s.len() > 0 {
        let (rest, init) = (s.drop_first(), s.drop_last());
        assert(!rest.contains(c)) by {
            if rest.contains(c) {
                let i = choose|i: int| 0 <= i < rest.len() && rest[i] == c;
                assert(s[i + 1] == c);
            }
        }
        assert(!init.contains(c)) by {
            if init.contains(c) {
                let i = choose|i: int| 0 <= i < init.len() && init[i] == c;
                assert(s[i] == c);
            }
        }
        trimming_adds_nothing(rest, c);
        trimming_adds_nothing(init, c);
    }
}

/// What has been trimmed neither starts nor ends with white space.
proof fn trimmed_is_trim(s: Seq<char>)
    ensures
        ({
            let t = text::trim(s);
            t.len() > 0 ==> !text::white_space(t[0]) && !text::white_space(t.last())
        }),
{
    trim_start_strips(s);
    trim_end_strips(text::trim_start(s));
}

proof fn trim_start_strips(s: Seq<char>)
    ensures
        text::trim_start(s).len() > 0 ==> !text::white_space(text::trim_start(s)[0]),
    decreases s.len(),
{
    if s.len() > 0 {
        trim_start_strips(s.drop_first());
    }
}

proof fn trim_end_strips(s: Seq<char>)
    ensures
        text::trim_end(s).len() > 0 ==> !text::white_space(text::trim_end(s).last())
            && text::trim_end(s)[0] == s[0],
    decreases s.len(),
{
    if s.len() > 0 {
        trim_end_strips(s.drop_last());
    }
}

/// A sanitized name is one path component: it holds neither a separator nor a NUL, and it is
/// neither nothing nor one of the two directory entries that are not names.
pub proof fn a_sanitized_name_is_one_component(name: Seq<char>)
    ensures
        !sanitized(name).contains('/'),
        !sanitized(name).contains('\0'),
        !nameless(sanitized(name)),
{
    let mapped = name.map_values(|c: char| safe_char(c));
    assert forall|c: char| c == '/' || c == '\0' implies !mapped.contains(c) by {
        if mapped.contains(c) {
            let i = choose|i: int| 0 <= i < mapped.len() && mapped[i] == c;
            assert(mapped[i] == safe_char(name[i]));
        }
    }
    trimming_adds_nothing(mapped, '/');
    trimming_adds_nothing(mapped, '\0');
    trimming_adds_nothing(text::trim_start(mapped), '/');
    trimming_adds_nothing(text::trim_start(mapped), '\0');
    reveal_strlit("Screenshot");
    reveal_strlit("");
    reveal_strlit(".");
    reveal_strlit("..");
    assert("Screenshot"@.len() == 10 && ""@.len() == 0 && "."@.len() == 1 && ".."@.len() == 2);
}

/// A name that is already one path component, with no white space around it, comes back
/// unchanged.
pub proof fn a_safe_name_comes_back_unchanged(name: Seq<char>)
    requires
        !name.contains('/'),
        !name.contains('\0'),
        !nameless(name),
        name.len() > 0 ==> !text::white_space(name[0]) && !text::white_space(name.last()),
    ensures
        sanitized(name) == name,
{
    let mapped = name.map_values(|c: char| safe_char(c));
    assert forall|i: int| 0 <= i < name.len() implies mapped[i] == name[i] by {
        assert(name.contains(name[i]));
    }
    assert(mapped =~= name);
}

/// A template that expands to itself, because there is nothing in it to expand, and that is
/// already a safe name, comes back unchanged.
pub proof fn a_literal_template_comes_back_unchanged<F: Fn(&str) -> Expansion>(
    template: &str,
    expand: F,
    name: Result<Seq<char>, NameError>,
)
    requires
        formatted(template, expand, name),
        forall|expansion: Expansion| #[trigger]
            call_ensures(expand, (template,), expansion) ==> (expansion matches Expansion::Written(
                bytes,
            ) && bytes@ == path::bytes_of(template@)),
        !template@.contains('/'),
        !template@.contains('\0'),
        !nameless(template@),
        !text::white_space(template@[0]),
        !text::white_space(template@.last()),
    ensures
        name == Ok::<Seq<char>, NameError>(template@),
{
    reveal_strlit("");
    if template@.len() == 0 {
        assert(template@ == ""@);
    }
    a_safe_name_comes_back_unchanged(template@);
    path::a_text_without_a_slash_is_one_component(template@);
    vstd::utf8::encode_utf8_valid_utf8(template@);
    vstd::utf8::encode_utf8_decode_utf8(template@);
}

/// Sanitizing a name that has been sanitized changes nothing.
pub proof fn sanitizing_twice_is_sanitizing_once(name: Seq<char>)
    ensures
        sanitized(sanitized(name)) == sanitized(name),
{
    a_sanitized_name_is_one_component(name);
    trimmed_is_trim(name.map_values(|c: char| safe_char(c)));
    reveal_strlit("Screenshot");
    a_safe_name_comes_back_unchanged(sanitized(name));
}

/// Each shot of a run gets its own name: no two numbers give the same one.
pub proof fn every_candidate_has_its_own_name(base: Seq<char>, m: nat, n: nat)
    requires
        1 <= m,
        1 <= n,
        candidate_name(base, m) == candidate_name(base, n),
    ensures
        m == n,
{
    reveal_strlit(".");
    reveal_strlit("-");
    reveal_strlit("png");
    let (a, b) = (candidate_name(base, m), candidate_name(base, n));
    let at = base.len() as int;
    if m <= 1 && n <= 1 {
    } else if m <= 1 {
        assert(a[at] == '.');
        assert(b[at] == '-');
    } else if n <= 1 {
        assert(a[at] == '-');
        assert(b[at] == '.');
    } else {
        let (p, q) = (text::decimal(m), text::decimal(n));
        assert(a.len() == at + 1 + p.len() + 4);
        assert(b.len() == at + 1 + q.len() + 4);
        assert(a.subrange(at + 1, at + 1 + p.len() as int) =~= p);
        assert(b.subrange(at + 1, at + 1 + q.len() as int) =~= q);
        text::decimal_is_injective(m, n);
    }
}

/// A shot lands in its directory and nowhere else, whatever its template expanded to: its path is
/// the directory, a separator, and one component.
pub proof fn a_shot_lands_in_its_directory(dir: Seq<u8>, name: Seq<char>, n: nat)
    requires
        1 <= n,
    ensures
        ({
            let component = path::bytes_of(candidate_name(sanitized(name), n));
            &&& component.len() > 0
            &&& !component.contains(path::SEPARATOR)
            &&& candidate(dir, sanitized(name), n) == (if dir.len() > 0 && dir.last()
                != path::SEPARATOR {
                dir.push(path::SEPARATOR) + component
            } else {
                dir + component
            })
        }),
{
    let base = sanitized(name);
    let file = candidate_name(base, n);
    a_sanitized_name_is_one_component(name);
    text::decimal_writes_its_number(n);
    reveal_strlit(".");
    reveal_strlit("-");
    reveal_strlit("png");
    let digits = text::decimal(n);
    assert(!file.contains('/')) by {
        if file.contains('/') {
            let i = choose|i: int| 0 <= i < file.len() && file[i] == '/';
            if i < base.len() {
                assert(base[i] == '/');
            } else if n > 1 && base.len() + 1 <= i < base.len() + 1 + digits.len() {
                assert(text::is_digit(digits[i - base.len() - 1]));
            }
        }
    }
    path::a_text_without_a_slash_is_one_component(file);
    let component = path::bytes_of(file);
    assert(component[0] != path::SEPARATOR) by {
        assert(component.contains(component[0]));
    }
}

/// Two shots of one name never share a file: no two numbers give the same path.
pub proof fn two_shots_never_share_a_file(dir: Seq<u8>, name: Seq<char>, m: nat, n: nat)
    requires
        1 <= m,
        1 <= n,
        candidate(dir, sanitized(name), m) == candidate(dir, sanitized(name), n),
    ensures
        m == n,
{
    let base = sanitized(name);
    a_shot_lands_in_its_directory(dir, name, m);
    a_shot_lands_in_its_directory(dir, name, n);
    let (a, b) = (candidate_name(base, m), candidate_name(base, n));
    let (p, q) = (path::bytes_of(a), path::bytes_of(b));
    let whole = candidate(dir, base, m);
    let start = whole.len() - p.len();
    assert(whole.skip(start) == p);
    assert(whole.skip(start) == q);
    vstd::utf8::encode_utf8_decode_utf8(a);
    vstd::utf8::encode_utf8_decode_utf8(b);
    every_candidate_has_its_own_name(base, m, n);
}

/// A name keeps its characters, but for each slash and each NUL, which become underscores, and
/// without the white space around it.
pub proof fn only_slashes_and_nuls_are_replaced(
    before: Seq<char>,
    name: Seq<char>,
    after: Seq<char>,
)
    requires
        forall|i: int| 0 <= i < before.len() ==> text::white_space(#[trigger] before[i]),
        forall|i: int| 0 <= i < after.len() ==> text::white_space(#[trigger] after[i]),
        name.len() > 0,
        !text::white_space(name[0]) && !text::white_space(name[name.len() - 1]),
        name != seq!['.'],
        name != seq!['.', '.'],
    ensures
        ({
            let safe = sanitized(before + name + after);
            &&& safe.len() == name.len()
            &&& forall|i: int|
                0 <= i < name.len() ==> #[trigger] safe[i] == (if name[i] == '/' || name[i]
                    == '\0' {
                    '_'
                } else {
                    name[i]
                })
        }),
{
    let whole = before + name + after;
    let safe = |c: char| safe_char(c);
    let (b, n, a) = (before.map_values(safe), name.map_values(safe), after.map_values(safe));
    assert(whole.map_values(safe) == b + n + a);
    assert forall|i: int| 0 <= i < b.len() implies text::white_space(#[trigger] b[i]) by {
        assert(text::white_space(before[i]));
    }
    assert forall|i: int| 0 <= i < a.len() implies text::white_space(#[trigger] a[i]) by {
        assert(text::white_space(after[i]));
    }
    text::trimming_cuts_the_white_space_around(b, n, a);
    reveal_strlit("");
    reveal_strlit(".");
    reveal_strlit("..");
    assert(n.len() == name.len());
    if n == "."@ {
        assert(n[0] == '.' && name[0] == '.');
        assert(name == seq!['.']);
    }
    if n == ".."@ {
        assert(n[0] == '.' && n[1] == '.' && name[0] == '.' && name[1] == '.');
        assert(name == seq!['.', '.']);
    }
}

/// What is no name at all is called `Screenshot`: nothing but white space, and the two directory
/// entries that are not names, whatever white space is around them.
pub proof fn what_is_no_name_falls_back(before: Seq<char>, name: Seq<char>, after: Seq<char>)
    requires
        forall|i: int| 0 <= i < before.len() ==> text::white_space(#[trigger] before[i]),
        forall|i: int| 0 <= i < after.len() ==> text::white_space(#[trigger] after[i]),
        name.len() == 0 || name == seq!['.'] || name == seq!['.', '.'],
    ensures
        sanitized(before + name + after) == "Screenshot"@,
{
    let whole = before + name + after;
    let safe = |c: char| safe_char(c);
    let (b, n, a) = (before.map_values(safe), name.map_values(safe), after.map_values(safe));
    assert(whole.map_values(safe) == b + n + a);
    assert forall|i: int| 0 <= i < b.len() implies text::white_space(#[trigger] b[i]) by {
        assert(text::white_space(before[i]));
    }
    assert forall|i: int| 0 <= i < a.len() implies text::white_space(#[trigger] a[i]) by {
        assert(text::white_space(after[i]));
    }
    assert(n == name);
    text::trimming_cuts_the_white_space_around(b, n, a);
    reveal_strlit("");
    reveal_strlit(".");
    reveal_strlit("..");
    assert("."@ == seq!['.']);
    assert(".."@ == seq!['.', '.']);
    assert(name.len() == 0 ==> name == ""@);
}

/// The first file of a name is the name and `.png`; the next ones have a dash and their number
/// before that, counted from two.
pub proof fn files_of_one_name_are_numbered(base: Seq<char>, n: nat)
    ensures
        candidate_name(base, 1) == base + seq!['.', 'p', 'n', 'g'],
        n >= 2 ==> candidate_name(base, n) == base + seq!['-'] + text::decimal(n) + seq![
            '.',
            'p',
            'n',
            'g',
        ],
{
    reveal_strlit(".");
    reveal_strlit("-");
    reveal_strlit("png");
    assert("."@ == seq!['.'] && "-"@ == seq!['-'] && "png"@ == seq!['p', 'n', 'g']);
    assert(base + seq!['.'] + seq!['p', 'n', 'g'] == base + seq!['.', 'p', 'n', 'g']);
    let numbered = base + seq!['-'] + text::decimal(n);
    assert(numbered + seq!['.'] + seq!['p', 'n', 'g'] == numbered + seq!['.', 'p', 'n', 'g']);
}

/// A shot takes the first free name: never one past a name that is free, never one that is taken
/// before the thousandth, and always one of the thousand.
pub proof fn a_shot_takes_the_first_free_name<F: Fn(&UnixPath) -> bool>(
    dir: Seq<u8>,
    base: Seq<char>,
    exists_at: F,
    path: Seq<u8>,
    free: nat,
)
    requires
        chosen(dir, base, exists_at, path),
        1 <= free <= 1000,
        free < 1000 ==> forall|p: UnixPath|
            p.bytes@ == path::joined(dir, path::bytes_of(candidate_name(base, free)))
                ==> !#[trigger] call_ensures(exists_at, (&p,), true),
        forall|k: nat|
            1 <= k < free ==> forall|p: UnixPath|
                p.bytes@ == path::joined(dir, path::bytes_of(#[trigger] candidate_name(base, k)))
                    ==> !#[trigger] call_ensures(exists_at, (&p,), false),
    ensures
        path == path::joined(dir, path::bytes_of(candidate_name(base, free))),
{
    let n = choose|n: nat|
        #![trigger candidate(dir, base, n)]
        {
            &&& 1 <= n <= LAST_CANDIDATE
            &&& path == candidate(dir, base, n)
            &&& forall|k: nat|
                1 <= k < n ==> answered(exists_at, #[trigger] candidate(dir, base, k), true)
            &&& n < LAST_CANDIDATE ==> answered(exists_at, path, false)
        };
    if n < free {
        assert(answered(exists_at, candidate(dir, base, n), false));
        let p = choose|p: UnixPath|
            p@ == candidate(dir, base, n) && #[trigger] call_ensures(exists_at, (&p,), false);
        assert(p.bytes@ == path::joined(dir, path::bytes_of(candidate_name(base, n))));
    } else if n > free {
        assert(answered(exists_at, candidate(dir, base, free), true));
        let p = choose|p: UnixPath|
            p@ == candidate(dir, base, free) && #[trigger] call_ensures(exists_at, (&p,), true);
        assert(p.bytes@ == path::joined(dir, path::bytes_of(candidate_name(base, free))));
    }
}

/// What an expansion gives: a name where it wrote something, which is its text made safe; and a
/// reason where it wrote nothing, or where there is no clock.
pub proof fn what_an_expansion_gives(bytes: Vec<u8>)
    ensures
        expansion_name(Expansion::NoClock) == Err::<Seq<char>, NameError>(NameError::NoClock),
        bytes@.len() == 0 ==> expansion_name(Expansion::Written(bytes)) == Err::<
            Seq<char>,
            NameError,
        >(NameError::Length),
        bytes@.len() > 0 ==> expansion_name(Expansion::Written(bytes)) == Ok::<
            Seq<char>,
            NameError,
        >(sanitized(lossy_text(bytes@))),
        bytes@.len() > 0 && vstd::utf8::valid_utf8(bytes@) && read_as_written(
            Expansion::Written(bytes),
        ) ==> expansion_name(Expansion::Written(bytes)) == Ok::<Seq<char>, NameError>(
            sanitized(vstd::utf8::decode_utf8(bytes@)),
        ),
{
}

/// A template is refused if and only if it holds a NUL; any other is named by what it expands to.
pub proof fn a_template_is_named_by_what_it_expands_to<F: Fn(&str) -> Expansion>(
    template: &str,
    expand: F,
    name: Result<Seq<char>, NameError>,
    expansion: Expansion,
)
    requires
        formatted(template, expand, name),
        forall|e: Expansion| #[trigger] call_ensures(expand, (template,), e) ==> e == expansion,
    ensures
        template@.contains('\0') ==> name == Err::<Seq<char>, NameError>(NameError::Nul),
        !template@.contains('\0') ==> name == expansion_name(expansion) && read_as_written(
            expansion,
        ),
{
}

/// What comes of looking for a place for a shot: a failure to make the directory if and only if
/// making it failed, with that failure; a failure to name the file if the template gives no name;
/// and otherwise a file in that directory, of the name that the template gives.
pub proof fn a_place_is_in_the_directory_that_was_made<M, F, X>(
    filename: String,
    dir: Seq<u8>,
    make_dir: M,
    expand: F,
    exists_at: X,
    r: Result<UnixPath, DestinationError>,
) where
    M: Fn(&UnixPath) -> Result<(), String>,
    F: Fn(&str) -> Expansion,
    X: Fn(&UnixPath) -> bool,

    requires
        destination_is(filename, dir, make_dir, expand, exists_at, r),
    ensures
        !(r matches Err(DestinationError::NoPlace)),
        (forall|p: UnixPath, outcome: Result<(), String>|
            p.bytes@ == dir && #[trigger] call_ensures(make_dir, (&p,), outcome) ==> outcome
                is Err) ==> (r matches Err(DestinationError::Directory(_))),
        (forall|p: UnixPath, outcome: Result<(), String>|
            p.bytes@ == dir && #[trigger] call_ensures(make_dir, (&p,), outcome) ==> outcome is Ok)
            ==> !(r matches Err(DestinationError::Directory(_))),
        r matches Err(DestinationError::Directory(why)) ==> exists|p: UnixPath|
            p.bytes@ == dir && #[trigger] call_ensures(make_dir, (&p,), Err::<(), String>(why)),
        r matches Err(DestinationError::Name(error)) ==> exists|t: &str|
            t@ == filename@ && #[trigger] formatted(t, expand, Err::<Seq<char>, NameError>(error)),
        r matches Ok(path) ==> exists|t: &str, base: Seq<char>|
            t@ == filename@ && #[trigger] formatted(t, expand, Ok::<Seq<char>, NameError>(base))
                && chosen(dir, base, exists_at, path.bytes@),
{
}

/// A name by its view is the same name, or the same reason that there is none.
pub proof fn the_view_of_a_name_is_its_own(name: Result<String, NameError>)
    ensures
        name matches Ok(text) ==> name_view(name) == Ok::<Seq<char>, NameError>(text@),
        name matches Err(why) ==> name_view(name) == Err::<Seq<char>, NameError>(why),
{
}

/// What the user is told of a shot without a place: that nothing says where, what went wrong with
/// the directory word for word, or what is wrong with the name, for which each reason has its own
/// words.
pub proof fn what_is_said_of_a_shot_without_a_place(why: String, error: NameError)
    ensures
        DestinationError::NoPlace.text()
            == "no place to save: neither the config file nor $HOME says where"@,
        DestinationError::Directory(why).text() == why@,
        DestinationError::Name(error).text() == match error {
            NameError::Nul => "the filename template contains a NUL byte"@,
            NameError::NoClock => "the system clock could not be read as a local time"@,
            NameError::Length =>
                "the filename template expanded to nothing, or to more than this program will use as a name"@,
        },
{
}

} // verus!
