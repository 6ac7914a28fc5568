//! The two request path grammars, for asset bundles and for manifests.
use vstd::prelude::*;

verus! {

/// The client platform named by the first path segment.
#[derive(Clone, Copy, Debug, PartialEq, Eq, Structural)]
pub enum Platform {
    Android,
    Ios,
}

/// The path text that names a platform, with the separator that follows it.
pub open spec fn platform_head(p: Platform) -> Seq<char> {
    match p {
        Platform::Android => "Android/"@,
        Platform::Ios => "iOS/"@,
    }
}

/// The platform that `s` begins with, and what follows its separator.
pub open spec fn split_platform(s: Seq<char>) -> Option<(Platform, Seq<char>)> {
    let a = platform_head(Platform::Android);
    let i = platform_head(Platform::Ios);
    if a.len() <= s.len() && s.subrange(0, a.len() as int) == a {
        Some((Platform::Android, s.subrange(a.len() as int, s.len() as int)))
    } else if i.len() <= s.len() && s.subrange(0, i.len() as int) == i {
        Some((Platform::Ios, s.subrange(i.len() as int, s.len() as int)))
    } else {
        None
    }
}

/// Whether `p` occurs in `s` at position `at`.
pub(crate) fn matches_at(s: &str, n: usize, at: usize, p: &str) -> (r: bool)
    requires
        n == s@.len(),
    ensures
        r == (at + p@.len() <= n && s@.subrange(at as int, at + p@.len()) == p@),
{
    let m = p.unicode_len();
    if at > n || m > n - at {
        return false;
    }
    let mut i: usize = 0;
    while i < m
        invariant
            m == p@.len(),
            at + m <= n,
            n == s@.len(),
            i <= m,
            forall|j: int| 0 <= j < i ==> s@[at + j] == p@[j],
        decreases m - i,
    {
        if s.get_char(at + i) != p.get_char(i) {
            assert(s@.subrange(at as int, at + m)[i as int] != p@[i as int]);
            return false;
        }
        i = i + 1;
    }
    assert(s@.subrange(at as int, at + m) =~= p@);
    true
}

/// Reads the platform at the start of `s`; the result also gives the length of
/// the text it took up.
fn read_platform(s: &str, n: usize) -> (r: Option<(Platform, usize)>)
    requires
        n == s@.len(),
    ensures
        match split_platform(s@) {
            None => r is None,
            Some((p, rest)) => r == Some((p, platform_head(p).len() as usize))
                && rest == s@.subrange(platform_head(p).len() as int, n as int),
        },
{
    if matches_at(s, n, 0, "Android/") {
        Some((Platform::Android, "Android/".unicode_len()))
    } else if matches_at(s, n, 0, "iOS/") {
        Some((Platform::Ios, "iOS/".unicode_len()))
    } else {
        None
    }
}


/// A character of the hash alphabet: `A` to `Z`, `2` to `7`, and `=`.
pub open spec fn is_hash_char(c: char) -> bool {
    ('A' <= c && c <= 'Z') || ('2' <= c && c <= '7') || c == '='
}

pub open spec fn all_hash_chars(s: Seq<char>) -> bool {
    forall|i: int| 0 <= i < s.len() ==> is_hash_char(#[trigger] s[i])
}

/// Length of the container prefix that opens the last segment of an asset path.
pub const PREFIX_LEN: usize = 2;

/// Length of the hash that follows the prefix.
pub const HASH_LEN: usize = 52;

/// A request path that names an asset bundle, taken apart.
pub struct AssetRef {
    pub platform: Platform,
    pub prefix: String,
    pub hash: String,
}

pub ghost struct AssetView {
    pub platform: Platform,
    pub prefix: Seq<char>,
    pub hash: Seq<char>,
}

impl View for AssetRef {
    type V = AssetView;

    open spec fn view(&self) -> AssetView {
        AssetView { platform: self.platform, prefix: self.prefix@, hash: self.hash@ }
    }
}

/// The asset grammar `<platform>/<middle>/<prefix><hash>`: the middle is any
/// non-empty text, and the last segment is exactly the two-character prefix
/// and the 52-character hash, all of the hash alphabet.
pub open spec fn asset_spec(s: Seq<char>) -> Option<AssetView> {
    match split_platform(s) {
        None => None,
        Some((p, rest)) => {
            let n = rest.len() as int;
            let k = (PREFIX_LEN + HASH_LEN) as int;
            if n >= k + 2 && rest[n - k - 1] == '/' && all_hash_chars(rest.subrange(n - k, n)) {
                Some(
                    AssetView {
                        platform: p,
                        prefix: rest.subrange(n - k, n - HASH_LEN),
                        hash: rest.subrange(n - HASH_LEN, n),
                    },
                )
            } else {
                None
            }
        },
    }
}

fn is_hash_char_exec(c: char) -> (r: bool)
    ensures
        r == is_hash_char(c),
{
    ('A' <= c && c <= 'Z') || ('2' <= c && c <= '7') || c == '='
}

/// Parses an asset bundle path; `None` is a grammar violation.
pub fn parse_asset(path: &str) -> (r: Option<AssetRef>)
    ensures
        r is Some <==> asset_spec(path@) is Some,
        r is Some ==> r->0@ == asset_spec(path@)->0,
{
    let n = path.unicode_len();
    let (platform, h) = match read_platform(path, n) {
        None => return None,
        Some(x) => x,
    };
    let k = PREFIX_LEN + HASH_LEN;
    let ghost rest = path@.subrange(h as int, n as int);
    assert(split_platform(path@) == Some((platform, rest)));
    if n - h < k + 2 {
        return None;
    }
    if path.get_char(n - k - 1) != '/' {
        assert(rest[(n - h) - k - 1] == path@[n - k - 1]);
        return None;
    }
    let mut i: usize = n - k;
    while i < n
        invariant
            n == path@.len(),
            k == PREFIX_LEN + HASH_LEN,
            h <= n,
            k + 2 <= n - h,
            rest == path@.subrange(h as int, n as int),
            split_platform(path@) == Some((platform, rest)),
            n - k <= i <= n,
            forall|j: int| n - k <= j < i ==> is_hash_char(#[trigger] path@[j]),
        decreases n - i,
    {
        if !is_hash_char_exec(path.get_char(i)) {
            assert(rest.subrange((n - h) - k, n - h)[i - (n - k)] == path@[i as int]);
            assert(!is_hash_char(rest.subrange((n - h) - k, n - h)[i - (n - k)]));
            return None;
        }
        i = i + 1;
    }
    let prefix = String::from_str(path.substring_char(n - k, n - HASH_LEN));
    let hash = String::from_str(path.substring_char(n - HASH_LEN, n));
    assert(rest.subrange((n - h) - k, n - h) =~= path@.subrange(n - k, n as int));
    assert(rest.subrange((n - h) - k, (n - h) - HASH_LEN) =~= prefix@);
    assert(rest.subrange((n - h) - HASH_LEN, n - h) =~= hash@);
    Some(AssetRef { platform, prefix, hash })
}


/// The locale tags that a manifest file name may carry.
#[derive(Clone, Copy, Debug, PartialEq, Eq, Structural)]
pub enum Locale {
    EnUs,
    EnEu,
    ZhCn,
    ZhTw,
}

pub open spec fn locale_tag(l: Locale) -> Seq<char> {
    match l {
        Locale::EnUs => "en_us"@,
        Locale::EnEu => "en_eu"@,
        Locale::ZhCn => "zh_cn"@,
        Locale::ZhTw => "zh_tw"@,
    }
}

/// The manifest file name: `assetbundle`, the locale tag after a dot if there
/// is one, and `.manifest`.
pub open spec fn manifest_filename(l: Option<Locale>) -> Seq<char> {
    match l {
        None => "assetbundle.manifest"@,
        Some(Locale::EnUs) => "assetbundle.en_us.manifest"@,
        Some(Locale::EnEu) => "assetbundle.en_eu.manifest"@,
        Some(Locale::ZhCn) => "assetbundle.zh_cn.manifest"@,
        Some(Locale::ZhTw) => "assetbundle.zh_tw.manifest"@,
    }
}

fn filename_text(l: Option<Locale>) -> (r: &'static str)
    ensures
        r@ == manifest_filename(l),
{
    match l {
        None => "assetbundle.manifest",
        Some(Locale::EnUs) => "assetbundle.en_us.manifest",
        Some(Locale::EnEu) => "assetbundle.en_eu.manifest",
        Some(Locale::ZhCn) => "assetbundle.zh_cn.manifest",
        Some(Locale::ZhTw) => "assetbundle.zh_tw.manifest",
    }
}

/// The longest manifest identifier.
pub const MAX_ID_LEN: usize = 16;

pub open spec fn is_id_char(c: char) -> bool {
    ('A' <= c && c <= 'Z') || ('a' <= c && c <= 'z') || ('0' <= c && c <= '9')
}

/// A manifest identifier: 1 to 16 ASCII letters and digits.
pub open spec fn is_manifest_id(s: Seq<char>) -> bool {
    1 <= s.len() <= MAX_ID_LEN && forall|i: int| 0 <= i < s.len() ==> is_id_char(#[trigger] s[i])
}

fn is_id_char_exec(c: char) -> (r: bool)
    ensures
        r == is_id_char(c),
{
    ('A' <= c && c <= 'Z') || ('a' <= c && c <= 'z') || ('0' <= c && c <= '9')
}

/// The identifier, where `rest` is `<id>/<file name for l>`.
pub open spec fn manifest_id_for(rest: Seq<char>, l: Option<Locale>) -> Option<Seq<char>> {
    let f = manifest_filename(l);
    let n = rest.len() as int;
    let m = f.len() as int;
    if m + 1 <= n && rest.subrange(n - m, n) == f && rest[n - m - 1] == '/'
        && is_manifest_id(rest.subrange(0, n - m - 1)) {
        Some(rest.subrange(0, n - m - 1))
    } else {
        None
    }
}

/// Which file name `rest` ends in, trying the plain name first.
pub open spec fn manifest_locale(rest: Seq<char>) -> Option<Option<Locale>> {
    if manifest_id_for(rest, None) is Some {
        Some(None)
    } else if manifest_id_for(rest, Some(Locale::EnUs)) is Some {
        Some(Some(Locale::EnUs))
    } else if manifest_id_for(rest, Some(Locale::EnEu)) is Some {
        Some(Some(Locale::EnEu))
    } else if manifest_id_for(rest, Some(Locale::ZhCn)) is Some {
        Some(Some(Locale::ZhCn))
    } else if manifest_id_for(rest, Some(Locale::ZhTw)) is Some {
        Some(Some(Locale::ZhTw))
    } else {
        None
    }
}

/// A request path that names a manifest, taken apart.
pub struct ManifestRef {
    pub platform: Platform,
    pub id: String,
    pub locale: Option<Locale>,
}

pub ghost struct ManifestView {
    pub platform: Platform,
    pub id: Seq<char>,
    pub locale: Option<Locale>,
}

impl View for ManifestRef {
    type V = ManifestView;

    open spec fn view(&self) -> ManifestView {
        ManifestView { platform: self.platform, id: self.id@, locale: self.locale }
    }
}

/// The manifest grammar `<platform>/<id>/<file name>`.
pub open spec fn manifest_spec(s: Seq<char>) -> Option<ManifestView> {
    match split_platform(s) {
        None => None,
        Some((p, rest)) => match manifest_locale(rest) {
            None => None,
            Some(l) => Some(
                ManifestView { platform: p, id: manifest_id_for(rest, l)->0, locale: l },
            ),
        },
    }
}

/// Where `path` from `h` on is `<id>/<file name for l>`, the end of the identifier.
fn read_manifest_tail(path: &str, n: usize, h: usize, l: Option<Locale>) -> (r: Option<usize>)
    requires
        n == path@.len(),
        h <= n,
    ensures
        manifest_id_for(path@.subrange(h as int, n as int), l) is Some <==> r is Some,
        r is Some ==> h <= r->0 <= n && manifest_id_for(path@.subrange(h as int, n as int), l)->0
            == path@.subrange(h as int, r->0 as int),
{
    let ghost rest = path@.subrange(h as int, n as int);
    let f = filename_text(l);
    let m = f.unicode_len();
    if m >= n - h {
        return None;
    }
    let e = n - m - 1;
    if !matches_at(path, n, n - m, f) {
        assert(rest.subrange((n - h) - m, n - h) =~= path@.subrange(n - m, n as int));
        return None;
    }
    if path.get_char(e) != '/' {
        assert(rest[e - h] == path@[e as int]);
        return None;
    }
    assert(rest.subrange((n - h) - m, n - h) =~= path@.subrange(n - m, n as int));
    assert(rest.subrange(0, e - h) =~= path@.subrange(h as int, e as int));
    assert(manifest_id_for(rest, l) is Some <==> is_manifest_id(path@.subrange(h as int, e as int)));
    if e - h < 1 || e - h > MAX_ID_LEN {
        return None;
    }
    let mut i: usize = h;
    while i < e
        invariant
            n == path@.len(),
            h <= i <= e,
            e < n,
            1 <= e - h <= MAX_ID_LEN,
            rest == path@.subrange(h as int, n as int),
            manifest_id_for(rest, l) is Some <==> is_manifest_id(path@.subrange(h as int, e as int)),
            forall|j: int| h <= j < i ==> is_id_char(#[trigger] path@[j]),
        decreases e - i,
    {
        if !is_id_char_exec(path.get_char(i)) {
            assert(path@.subrange(h as int, e as int)[i - h] == path@[i as int]);
            assert(!is_manifest_id(path@.subrange(h as int, e as int)));
            return None;
        }
        i = i + 1;
    }
    assert(is_manifest_id(path@.subrange(h as int, e as int)));
    Some(e)
}

/// Parses a manifest path; `None` is a grammar violation.
pub fn parse_manifest(path: &str) -> (r: Option<ManifestRef>)
    ensures
        r is Some <==> manifest_spec(path@) is Some,
        r is Some ==> r->0@ == manifest_spec(path@)->0,
{
    let n = path.unicode_len();
    let (platform, h) = match read_platform(path, n) {
        None => return None,
        Some(x) => x,
    };
    let mut locale: Option<Locale> = None;
    let mut found = read_manifest_tail(path, n, h, locale);
    if found.is_none() {
        locale = Some(Locale::EnUs);
        found = read_manifest_tail(path, n, h, locale);
    }
    if found.is_none() {
        locale = Some(Locale::EnEu);
        found = read_manifest_tail(path, n, h, locale);
    }
    if found.is_none() {
        locale = Some(Locale::ZhCn);
        found = read_manifest_tail(path, n, h, locale);
    }
    if found.is_none() {
        locale = Some(Locale::ZhTw);
        found = read_manifest_tail(path, n, h, locale);
    }
    match found {
        None => None,
        Some(e) => {
            let id = String::from_str(path.substring_char(h, e));
            Some(ManifestRef { platform, id, locale })
        },
    }
}

impl ManifestRef {
    /// The file name that the path ended in.
    pub fn filename(&self) -> (r: String)
        ensures
            r@ == manifest_filename(self.locale),
    {
        String::from_str(filename_text(self.locale))
    }
}


/// The two kinds of request that name a file.
#[derive(Clone, Copy, Debug, PartialEq, Eq, Structural)]
pub enum Kind {
    Asset,
    Manifest,
}

/// The file that a valid request names: a directory under a storage root, and a
/// file name in it.
pub struct FileRef {
    pub dir: String,
    pub file: String,
}

pub ghost struct FileView {
    pub dir: Seq<char>,
    pub file: Seq<char>,
}

impl View for FileRef {
    type V = FileView;

    open spec fn view(&self) -> FileView {
        FileView { dir: self.dir@, file: self.file@ }
    }
}

/// An asset is stored as `<prefix>/<hash>`, a manifest as `<id>/<file name>`.
pub open spec fn file_spec(kind: Kind, s: Seq<char>) -> Option<FileView> {
    match kind {
        Kind::Asset => match asset_spec(s) {
            None => None,
            Some(a) => Some(FileView { dir: a.prefix, file: a.hash }),
        },
        Kind::Manifest => match manifest_spec(s) {
            None => None,
            Some(m) => Some(FileView { dir: m.id, file: manifest_filename(m.locale) }),
        },
    }
}

impl AssetRef {
    pub fn file_ref(&self) -> (r: FileRef)
        ensures
            r@ == (FileView { dir: self.prefix@, file: self.hash@ }),
    {
        FileRef { dir: self.prefix.clone(), file: self.hash.clone() }
    }
}

impl ManifestRef {
    pub fn file_ref(&self) -> (r: FileRef)
        ensures
            r@ == (FileView { dir: self.id@, file: manifest_filename(self.locale) }),
    {
        FileRef { dir: self.id.clone(), file: self.filename() }
    }
}

/// Checks `path` against the grammar of `kind`; `None` is a grammar violation,
/// which the service answers with Forbidden.
pub fn validate(kind: Kind, path: &str) -> (r: Option<FileRef>)
    ensures
        r is Some <==> file_spec(kind, path@) is Some,
        r is Some ==> r->0@ == file_spec(kind, path@)->0,
{
    match kind {
        Kind::Asset => match parse_asset(path) {
            None => None,
            Some(a) => Some(a.file_ref()),
        },
        Kind::Manifest => match parse_manifest(path) {
            None => None,
            Some(m) => Some(m.file_ref()),
        },
    }
}


pub open spec fn no_slash(s: Seq<char>) -> bool {
    forall|i: int| 0 <= i < s.len() ==> #[trigger] s[i] != '/'
}

/// Where `s` is `<tag>/...` and also begins with `head`, which holds a slash
/// only at its end, the tag is `head` without that slash.
proof fn lemma_segment_is_head(tag: Seq<char>, rest: Seq<char>, head: Seq<char>)
    requires
        no_slash(tag),
        head.len() >= 1,
        head.last() == '/',
        no_slash(head.drop_last()),
        head.len() <= (tag + seq!['/'] + rest).len(),
        (tag + seq!['/'] + rest).subrange(0, head.len() as int) == head,
    ensures
        tag == head.drop_last(),
{
    let s = tag + seq!['/'] + rest;
    let m = head.len() - 1;
    if tag.len() < m {
        assert(s[tag.len() as int] == '/');
        assert(head[tag.len() as int] == s[tag.len() as int]);
        assert(head.drop_last()[tag.len() as int] == '/');
    } else if tag.len() > m {
        assert(s[m] == tag[m]);
        assert(head[m] == s[m]);
    }
    assert(tag =~= head.drop_last());
}

/// A path whose first segment is neither `Android` nor `iOS` breaks both
/// grammars.
pub proof fn lemma_unknown_platform_rejected(tag: Seq<char>, rest: Seq<char>)
    requires
        no_slash(tag),
        tag != "Android"@,
        tag != "iOS"@,
    ensures
        file_spec(Kind::Asset, tag + seq!['/'] + rest) is None,
        file_spec(Kind::Manifest, tag + seq!['/'] + rest) is None,
{
    let s = tag + seq!['/'] + rest;
    reveal_strlit("Android/");
    reveal_strlit("iOS/");
    reveal_strlit("Android");
    reveal_strlit("iOS");
    let a = platform_head(Platform::Android);
    let i = platform_head(Platform::Ios);
    assert(a.drop_last() =~= "Android"@);
    assert(i.drop_last() =~= "iOS"@);
    if a.len() <= s.len() && s.subrange(0, a.len() as int) == a {
        lemma_segment_is_head(tag, rest, a);
    }
    if i.len() <= s.len() && s.subrange(0, i.len() as int) == i {
        lemma_segment_is_head(tag, rest, i);
    }
    assert(split_platform(s) is None);
}


/// A last path segment with a character outside the hash alphabet breaks the
/// asset grammar.
pub proof fn lemma_bad_hash_char_rejected(head: Seq<char>, last: Seq<char>, i: int)
    requires
        no_slash(last),
        0 <= i < last.len(),
        !is_hash_char(last[i]),
    ensures
        asset_spec(head + seq!['/'] + last) is None,
{
    let s = head + seq!['/'] + last;
    let big_n = s.len() as int;
    let k = (PREFIX_LEN + HASH_LEN) as int;
    match split_platform(s) {
        None => {},
        Some((p, rest)) => {
            let n = rest.len() as int;
            let h = big_n - n;
            assert(forall|j: int| 0 <= j < n ==> rest[j] == s[h + j]);
            if n >= k + 2 && rest[n - k - 1] == '/' && all_hash_chars(rest.subrange(n - k, n)) {
                let len = last.len() as int;
                if len < k {
                    assert(s[big_n - 1 - len] == '/');
                    assert(rest.subrange(n - k, n)[k - 1 - len] == rest[n - 1 - len]);
                } else if len == k {
                    assert(s[big_n - k + i] == last[i]);
                    assert(rest.subrange(n - k, n)[i] == rest[n - k + i]);
                } else {
                    assert(s[big_n - k - 1] == last[len - k - 1]);
                }
            }
        },
    }
}

proof fn lemma_split_head(p: Platform, rest: Seq<char>)
    ensures
        split_platform(platform_head(p) + rest) == Some((p, rest)),
{
    reveal_strlit("Android/");
    reveal_strlit("iOS/");
    let s = platform_head(p) + rest;
    let h = platform_head(p);
    assert(s.subrange(0, h.len() as int) =~= h);
    assert(s.subrange(h.len() as int, s.len() as int) =~= rest);
    if p == Platform::Ios {
        assert(s[0] == h[0]);
        if 8 <= s.len() {
            assert(s.subrange(0, 8)[0] == s[0]);
        }
    }
}

/// Where `rest` is `<id>/<file>` and the identifier holds no slash, a match of
/// the manifest tail for `l` finds exactly `id`, and `file` is the file name of `l`.
proof fn lemma_manifest_tail(id: Seq<char>, file: Seq<char>, l: Option<Locale>)
    requires
        no_slash(id),
    ensures
        manifest_id_for(id + seq!['/'] + file, l) is Some ==> manifest_id_for(
            id + seq!['/'] + file,
            l,
        )->0 == id && file == manifest_filename(l),
{
    let rest = id + seq!['/'] + file;
    let f = manifest_filename(l);
    let n = rest.len() as int;
    let m = f.len() as int;
    if manifest_id_for(rest, l) is Some {
        let e = n - m - 1;
        if e < id.len() {
            assert(rest[e] == id[e]);
        } else if e > id.len() {
            assert(rest.subrange(0, e)[id.len() as int] == '/');
        }
        assert(rest.subrange(0, e) =~= id);
        assert(rest.subrange(n - m, n) =~= file);
    }
}

/// A manifest identifier longer than 16 characters breaks the manifest grammar.
pub proof fn lemma_long_id_rejected(p: Platform, id: Seq<char>, file: Seq<char>)
    requires
        no_slash(id),
        id.len() > MAX_ID_LEN,
    ensures
        file_spec(Kind::Manifest, platform_head(p) + (id + seq!['/'] + file)) is None,
{
    lemma_split_head(p, id + seq!['/'] + file);
    lemma_manifest_tail(id, file, None);
    lemma_manifest_tail(id, file, Some(Locale::EnUs));
    lemma_manifest_tail(id, file, Some(Locale::EnEu));
    lemma_manifest_tail(id, file, Some(Locale::ZhCn));
    lemma_manifest_tail(id, file, Some(Locale::ZhTw));
}

/// The file name with a locale tag: `assetbundle.<tag>.manifest`.
pub open spec fn tagged_filename(tag: Seq<char>) -> Seq<char> {
    "assetbundle."@ + tag + ".manifest"@
}

proof fn lemma_tagged_filename(tag: Seq<char>, l: Option<Locale>)
    requires
        tagged_filename(tag) == manifest_filename(l),
    ensures
        l is Some && tag == locale_tag(l->0),
{
    reveal_strlit("assetbundle.");
    reveal_strlit(".manifest");
    reveal_strlit("assetbundle.manifest");
    reveal_strlit("assetbundle.en_us.manifest");
    reveal_strlit("assetbundle.en_eu.manifest");
    reveal_strlit("assetbundle.zh_cn.manifest");
    reveal_strlit("assetbundle.zh_tw.manifest");
    reveal_strlit("en_us");
    reveal_strlit("en_eu");
    reveal_strlit("zh_cn");
    reveal_strlit("zh_tw");
    let f = tagged_filename(tag);
    assert(f.len() == 21 + tag.len());
    if l is Some {
        let t = locale_tag(l->0);
        assert(manifest_filename(l) =~= tagged_filename(t));
        assert(tag =~= f.subrange(12, 17));
        assert(t =~= tagged_filename(t).subrange(12, 17));
    }
}

/// A manifest file name whose locale tag is none of the four supported ones
/// breaks the manifest grammar; only the name with no tag at all is accepted
/// without one.
pub proof fn lemma_unknown_locale_rejected(p: Platform, id: Seq<char>, tag: Seq<char>)
    requires
        no_slash(id),
        forall|l: Locale| tag != locale_tag(l),
    ensures
        file_spec(Kind::Manifest, platform_head(p) + (id + seq!['/'] + tagged_filename(tag))) is None,
{
    let file = tagged_filename(tag);
    lemma_split_head(p, id + seq!['/'] + file);
    let ls = seq![None, Some(Locale::EnUs), Some(Locale::EnEu), Some(Locale::ZhCn), Some(Locale::ZhTw)];
    assert forall|j: int| 0 <= j < 5 implies manifest_id_for(id + seq!['/'] + file, #[trigger] ls[j]) is None by {
        lemma_manifest_tail(id, file, ls[j]);
        if manifest_id_for(id + seq!['/'] + file, ls[j]) is Some {
            lemma_tagged_filename(tag, ls[j]);
        }
    }
    assert(ls[0] == None::<Locale>);
    assert(ls[1] == Some(Locale::EnUs));
    assert(ls[2] == Some(Locale::EnEu));
    assert(ls[3] == Some(Locale::ZhCn));
    assert(ls[4] == Some(Locale::ZhTw));
}


/// An asset path put together from its parts parses back to those parts.
pub proof fn lemma_asset_parts(p: Platform, middle: Seq<char>, prefix: Seq<char>, hash: Seq<char>)
    requires
        middle.len() > 0,
        prefix.len() == PREFIX_LEN,
        hash.len() == HASH_LEN,
        all_hash_chars(prefix + hash),
    ensures
        asset_spec(platform_head(p) + (middle + seq!['/'] + (prefix + hash)))
            == Some(AssetView { platform: p, prefix, hash }),
        file_spec(Kind::Asset, platform_head(p) + (middle + seq!['/'] + (prefix + hash)))
            == Some(FileView { dir: prefix, file: hash }),
{
    let rest = middle + seq!['/'] + (prefix + hash);
    lemma_split_head(p, rest);
    let n = rest.len() as int;
    assert(rest[n - 55] == '/');
    assert(rest.subrange(n - 54, n) =~= prefix + hash);
    assert(rest.subrange(n - 54, n - 52) =~= prefix);
    assert(rest.subrange(n - 52, n) =~= hash);
}

} // verus!
