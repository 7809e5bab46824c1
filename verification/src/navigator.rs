//! The files a movie asks for, and the loads that bring them.
//!
//! A host mounts the files that go with a movie FLAT, by name. A movie asks
//! relative to itself, so what it asks for is a URL, and finding the file is
//! turning that back into a name.
use vstd::prelude::*;
use vstd::utf8::{decode_utf8, encode_utf8, valid_utf8};
use crate::text::{
    after_last, drop_leading, last_at, only_what_leads_is_dropped, same_text, split_at_each,
    tail_after, the_tail_is_behind_the_last, without_leading,
};

verus! {

/// A URL, taken apart.
pub struct Location {
    /// All of it.
    pub href: String,
    pub scheme: String,
    pub host: Option<String>,
    /// Its path, percent-encoded.
    pub path: String,
}

/// A URL, taken apart, for contracts.
pub struct LocationView {
    pub href: Seq<char>,
    pub scheme: Seq<char>,
    pub host: Option<Seq<char>>,
    pub path: Seq<char>,
}

impl View for Location {
    type V = LocationView;

    open spec fn view(&self) -> LocationView {
        LocationView {
            href: self.href@,
            scheme: self.scheme@,
            host: match self.host {
                Some(h) => Some(h@),
                None => None,
            },
            path: self.path@,
        }
    }
}

/// A reading of a URL, for contracts: its parts, or why it is none.
pub open spec fn reading(r: Result<Location, String>) -> Result<LocationView, Seq<char>> {
    match r {
        Ok(l) => Ok(l@),
        Err(e) => Err(e@),
    }
}

/// What `url::Url::parse` makes of a text: the parts of the URL, or the text of
/// the error.
pub uninterp spec fn url_parsed(text: Seq<char>) -> Result<LocationView, Seq<char>>;

/// What `url::Url::join` makes of a reference against a base, the base being
/// parsed first: the parts of the URL, or the text of the error.
pub uninterp spec fn url_joined(base: Seq<char>, reference: Seq<char>) -> Result<
    LocationView,
    Seq<char>,
>;

/// What `percent_encoding` makes of a text: its escapes decoded, and whatever
/// is then not UTF-8 replaced.
pub uninterp spec fn percent_decoded(text: Seq<char>) -> Seq<char>;

/// The value of a hexadecimal digit.
pub open spec fn hex_value(b: u8) -> Option<u8> {
    if 0x30 <= b <= 0x39 {
        Some((b - 0x30) as u8)
    } else if 0x41 <= b <= 0x46 {
        Some((b - 0x37) as u8)
    } else if 0x61 <= b <= 0x66 {
        Some((b - 0x57) as u8)
    } else {
        None
    }
}

/// Bytes with each escape, a percent sign and two hexadecimal digits, replaced
/// by the byte that it stands for. A percent sign without them is itself.
pub open spec fn unescaped(b: Seq<u8>) -> Seq<u8>
    decreases b.len(),
{
    if b.len() == 0 {
        Seq::empty()
    } else if b[0] == 0x25 && b.len() >= 3 && hex_value(b[1]) is Some && hex_value(b[2]) is Some {
        seq![(16 * hex_value(b[1])->0 + hex_value(b[2])->0) as u8] + unescaped(b.skip(3))
    } else {
        seq![b[0]] + unescaped(b.skip(1))
    }
}

/// The bytes that a text spells, its escapes decoded.
pub open spec fn spelled(text: Seq<char>) -> Seq<u8> {
    unescaped(encode_utf8(text))
}

/// A name that means nothing but itself in a URL: letters, digits, dots, dashes
/// and underscores, and neither of the two that name a directory.
pub open spec fn plain_name(s: Seq<char>) -> bool {
    &&& s.len() > 0
    &&& forall|i: int| 0 <= i < s.len() ==> plain_char(#[trigger] s[i])
    &&& !(s.len() == 1 && s[0] == '.')
    &&& !(s.len() == 2 && s[0] == '.' && s[1] == '.')
}

/// A character that means nothing but itself in a URL.
pub open spec fn plain_char(c: char) -> bool {
    ||| 'a' <= c <= 'z'
    ||| 'A' <= c <= 'Z'
    ||| '0' <= c <= '9'
    ||| c == '.'
    ||| c == '-'
    ||| c == '_'
}

/// A path that means nothing but itself in a URL: plain names, a slash between
/// each two.
pub open spec fn plain_path(s: Seq<char>) -> bool {
    forall|k: int|
        0 <= k < split_at_each(s, '/').len() ==> plain_name(#[trigger] split_at_each(s, '/')[k])
}

/// The URL of a plain path under the root of the mounted files.
pub open spec fn at_root(path: Seq<char>) -> LocationView {
    LocationView {
        href: "file:///"@ + path,
        scheme: "file"@,
        host: None,
        path: seq!['/'] + path,
    }
}

/// `url::Url::parse`, with the URL's text, scheme, host and path moved out.
#[verifier::external_body]
fn parse_url(text: &str) -> (r: Result<Location, String>)
    ensures
        reading(r) == url_parsed(text@),
{
    match url::Url::parse(text) {
        Ok(u) => Ok(Location {
            href: u.to_string(),
            scheme: u.scheme().to_owned(),
            host: u.host_str().map(str::to_owned),
            path: u.path().to_owned(),
        }),
        Err(e) => Err(e.to_string()),
    }
}

/// `url::Url::join` on a parsed base, with the URL's text, scheme, host and
/// path moved out. Joined to the root of files, a plain path is the file of
/// that path there.
#[verifier::external_body]
fn join_url(base: &str, reference: &str) -> (r: Result<Location, String>)
    ensures
        reading(r) == url_joined(base@, reference@),
        (base@ == "file:///"@ && plain_path(reference@)) ==> (r is Ok && r->Ok_0@ == at_root(
            reference@,
        )),
{
    match url::Url::parse(base).and_then(|b| b.join(reference)) {
        Ok(u) => Ok(Location {
            href: u.to_string(),
            scheme: u.scheme().to_owned(),
            host: u.host_str().map(str::to_owned),
            path: u.path().to_owned(),
        }),
        Err(e) => Err(e.to_string()),
    }
}

/// `percent_encoding::percent_decode_str`, decoded as UTF-8 with
/// `decode_utf8_lossy`. Where the bytes it spells are UTF-8 they are the text
/// that comes back, and a text without a percent sign comes back as it is. What
/// replaces bytes that are not UTF-8 is left unsaid.
#[verifier::external_body]
fn percent_decode(text: &str) -> (r: String)
    ensures
        r@ == percent_decoded(text@),
        valid_utf8(spelled(text@)) ==> r@ == decode_utf8(spelled(text@)),
        !text@.contains('%') ==> r@ == text@,
{
    percent_encoding::percent_decode_str(text).decode_utf8_lossy().into_owned()
}

/// What a movie's URL comes to: relative to the root of the mounted files where
/// it can be, and by itself where it cannot.
pub open spec fn resolved(url: Seq<char>) -> Result<LocationView, Seq<char>> {
    match url_joined("file:///"@, url) {
        Ok(l) => Ok(l),
        Err(_) => url_parsed(url),
    }
}

/// The name a file goes by, given the parts of its URL and its decoded path.
/// A file URL is its path; any other is its host and its path.
pub open spec fn vfs_name(
    scheme: Seq<char>,
    host: Option<Seq<char>>,
    decoded: Seq<char>,
) -> Seq<char> {
    let head = if scheme != "file"@ && host is Some {
        host->0
    } else {
        Seq::empty()
    };
    if head.len() > 0 && decoded.len() > 0 {
        head.push('/') + decoded
    } else {
        head + decoded
    }
}

/// The name a URL's file goes by.
pub open spec fn vfs_path(l: LocationView) -> Seq<char> {
    vfs_name(l.scheme, l.host, percent_decoded(without_leading(l.path, '/')))
}

/// The bytes that a URL's path spells are a text.
pub open spec fn spells_a_name(l: LocationView) -> bool {
    valid_utf8(spelled(without_leading(l.path, '/')))
}

/// The name that a URL spells, where the bytes of its path are a text.
pub open spec fn spelled_name(l: LocationView) -> Seq<char> {
    vfs_name(l.scheme, l.host, decode_utf8(spelled(without_leading(l.path, '/'))))
}

/// The name a file goes by, given the parts of its URL and its decoded path.
pub fn name_in_vfs(scheme: &str, host: &Option<String>, decoded: &str) -> (r: String)
    ensures
        r@ == vfs_name(
            scheme@,
            match *host {
                Some(h) => Some(h@),
                None => None,
            },
            decoded@,
        ),
{
    let mut path: String = String::new();
    if !same_text(scheme, "file") {
        if let Some(h) = host {
            path.append(h.as_str());
        }
    }
    if !path.as_str().is_empty() && !decoded.is_empty() {
        path.push('/');
    }
    path.append(decoded);
    path
}

/// The name a URL's file goes by: `foo/bar.swf` for `file:///foo/bar.swf`, and
/// `host/foo` for `http://host/foo`.
pub fn url_to_vfs_path(url: &Location) -> (r: String)
    ensures
        r@ == vfs_path(url@),
        spells_a_name(url@) ==> r@ == spelled_name(url@),
        !without_leading(url.path@, '/').contains('%') ==> r@ == vfs_name(
            url@.scheme,
            url@.host,
            without_leading(url.path@, '/'),
        ),
{
    let p: String = drop_leading(url.path.as_str(), '/');
    let decoded: String = percent_decode(p.as_str());
    name_in_vfs(url.scheme.as_str(), &url.host, decoded.as_str())
}

/// The other name to look under when the whole one is not there: what follows
/// its last slash, unless that is nothing.
pub open spec fn flat_name(path: Seq<char>) -> Option<Seq<char>> {
    match after_last(path, '/') {
        Some(base) => if base.len() > 0 {
            Some(base)
        } else {
            None
        },
        None => None,
    }
}

/// A file that a movie was given.
pub struct GuestResponse {
    pub url: String,
    pub body: Vec<u8>,
    /// The body has been handed over as a chunk.
    pub chunk_gotten: bool,
}

impl GuestResponse {
    /// `chunk` is what comes next of this, and `next` is what is left of it.
    pub open spec fn streams(self, next: GuestResponse, chunk: Option<Vec<u8>>) -> bool {
        &&& next == (GuestResponse { chunk_gotten: true, ..self })
        &&& if self.chunk_gotten {
            chunk is None
        } else {
            chunk matches Some(b) && b@ == self.body@
        }
    }

    /// Where it came from.
    pub fn url(&self) -> (r: &String)
        ensures
            r@ == self.url@,
    {
        &self.url
    }

    /// Says it came from elsewhere.
    pub fn set_url(&mut self, url: String)
        ensures
            *final(self) == (GuestResponse { url, ..*old(self) }),
    {
        self.url = url;
    }

    /// All of it.
    pub fn body(self) -> (r: Vec<u8>)
        ensures
            r@ == self.body@,
    {
        self.body
    }

    /// No status: it was not asked of a server.
    pub fn status(&self) -> (r: u16)
        ensures
            r == 0,
    {
        0
    }

    /// It is what was asked for.
    pub fn redirected(&self) -> (r: bool)
        ensures
            !r,
    {
        false
    }

    /// The body, once, then nothing. This is a stream: nothing at once would
    /// say that the file is empty.
    pub fn next_chunk(&mut self) -> (r: Option<Vec<u8>>)
        ensures
            old(self).streams(*final(self), r),
    {
        if self.chunk_gotten {
            return None;
        }
        self.chunk_gotten = true;
        Some(vstd::slice::slice_to_vec(self.body.as_slice()))
    }

    /// How long it is.
    pub fn expected_length(&self) -> (r: Option<u64>)
        ensures
            r == Some(self.body@.len() as u64),
    {
        Some(self.body.len() as u64)
    }
}

/// A load under way.
pub struct Fetch {
    pub location: Location,
    /// The name it is looked up under.
    pub path: String,
    /// The flat name has been tried.
    pub flat_tried: bool,
}

/// What a load comes to next.
pub enum FetchStep {
    /// Read the file of this name.
    Read { fetch: Fetch, name: String },
    /// The file.
    Found(GuestResponse),
    /// No file: what was asked for, the name it was looked up under, and why
    /// it is not there.
    Missing { url: String, path: String, error: String },
    /// What was asked for is no URL.
    Invalid { url: String, error: String },
}

/// The first step of a load whose URL reads as `r`.
pub open spec fn fetch_begins(step: FetchStep, url: Seq<char>, r: Result<LocationView, Seq<char>>) -> bool {
    match r {
        Ok(l) => {
            &&& step matches FetchStep::Read { fetch, name }
            &&& fetch.location@ == l
            &&& fetch.path@ == vfs_path(l)
            &&& !fetch.flat_tried
            &&& name@ == vfs_path(l)
        },
        Err(e) => {
            &&& step matches FetchStep::Invalid { url: u, error }
            &&& u@ == url
            &&& error@ == e
        },
    }
}

/// Begins a load, once its URL has been read.
pub fn begin_fetch(url: &str, location: Result<Location, String>) -> (step: FetchStep)
    ensures
        fetch_begins(step, url@, reading(location)),
        match reading(location) {
            Ok(l) if spells_a_name(l) => step matches FetchStep::Read { fetch, name } && name@
                == spelled_name(l),
            _ => true,
        },
        match location {
            Ok(l) if !without_leading(l.path@, '/').contains('%') => step matches FetchStep::Read {
                fetch,
                name,
            } && name@ == vfs_name(l@.scheme, l@.host, without_leading(l.path@, '/')),
            _ => true,
        },
{
    match location {
        Ok(location) => {
            let path: String = url_to_vfs_path(&location);
            let name: String = path.clone();
            FetchStep::Read { fetch: Fetch { location, path, flat_tried: false }, name }
        },
        Err(error) => FetchStep::Invalid { url: url.to_owned(), error },
    }
}

impl Fetch {
    /// `step` is what this load comes to once its file was read, or was not
    /// there.
    pub open spec fn settles(self, read: Result<Vec<u8>, String>, step: FetchStep) -> bool {
        match read {
            Ok(body) => step == FetchStep::Found(
                GuestResponse { url: self.location.href, body, chunk_gotten: false },
            ),
            Err(e) => if !self.flat_tried && flat_name(self.path@) is Some {
                &&& step matches FetchStep::Read { fetch, name }
                &&& fetch == (Fetch { flat_tried: true, ..self })
                &&& name@ == flat_name(self.path@)->0
            } else {
                step == (FetchStep::Missing {
                    url: self.location.href,
                    path: self.path,
                    error: e,
                })
            },
        }
    }

    /// Goes on once the file was read, or was not there. What was asked for is
    /// tried first, then what it is called.
    pub fn settle(self, read: Result<Vec<u8>, String>) -> (step: FetchStep)
        ensures
            self.settles(read, step),
    {
        match read {
            Ok(body) => FetchStep::Found(
                GuestResponse { url: self.location.href, body, chunk_gotten: false },
            ),
            Err(error) => {
                if !self.flat_tried {
                    if let Some(name) = tail_after(self.path.as_str(), '/') {
                        if !name.as_str().is_empty() {
                            return FetchStep::Read {
                                fetch: Fetch {
                                    location: self.location,
                                    path: self.path,
                                    flat_tried: true,
                                },
                                name,
                            };
                        }
                    }
                }
                FetchStep::Missing { url: self.location.href, path: self.path, error }
            },
        }
    }
}

/// What a movie loads through: the loads that are under way.
pub struct GuestNavigator<T> {
    pub tasks: Vec<T>,
}

impl<T> GuestNavigator<T> {
    /// No loads yet.
    pub fn new() -> (n: GuestNavigator<T>)
        ensures
            n.tasks@ == Seq::<T>::empty(),
    {
        GuestNavigator { tasks: Vec::new() }
    }

    /// Reads what a movie calls a file as a URL.
    pub fn resolve_url(&self, url: &str) -> (r: Result<Location, String>)
        ensures
            reading(r) == resolved(url@),
            plain_path(url@) ==> (r is Ok && r->Ok_0@ == at_root(url@)),
    {
        match join_url("file:///", url) {
            Ok(u) => Ok(u),
            Err(_) => parse_url(url),
        }
    }

    /// Begins a load. A movie that asks for a plain path is looked up under
    /// that path.
    pub fn fetch(&self, url: &str) -> (step: FetchStep)
        ensures
            fetch_begins(step, url@, resolved(url@)),
            match resolved(url@) {
                Ok(l) if spells_a_name(l) => step matches FetchStep::Read { fetch, name } && name@
                    == spelled_name(l),
                _ => true,
            },
            plain_path(url@) ==> (step matches FetchStep::Read { fetch, name } && name@ == url@),
    {
        let location: Result<Location, String> = self.resolve_url(url);
        proof {
            if plain_path(url@) {
                plain_paths_stay(url@);
            }
        }
        begin_fetch(url, location)
    }

    /// A load is under way.
    pub fn spawn_future(&mut self, future: T)
        ensures
            final(self).tasks@ == old(self).tasks@.push(future),
    {
        self.tasks.push(future);
    }

    /// Takes the loads to poll. What is spawned while they are polled is for
    /// the next frame.
    pub fn take_batch(&mut self) -> (batch: Vec<T>)
        ensures
            batch@ == old(self).tasks@,
            final(self).tasks@ == Seq::<T>::empty(),
    {
        let mut batch: Vec<T> = Vec::new();
        std::mem::swap(&mut batch, &mut self.tasks);
        batch
    }
}

/// Those of a batch that are still pending, in order.
pub open spec fn still_pending<T>(batch: Seq<T>, pending: Seq<bool>) -> Seq<T>
    decreases batch.len(),
{
    if batch.len() == 0 {
        Seq::empty()
    } else {
        let before = still_pending(batch.drop_last(), pending.drop_last());
        if pending.last() {
            before.push(batch.last())
        } else {
            before
        }
    }
}

/// Puts back what a poll left: each load of `batch` was polled once, and
/// `pending` says which are not done. They go behind what was spawned
/// meanwhile.
pub fn run_tasks<T>(navigator: &mut GuestNavigator<T>, batch: Vec<T>, pending: &Vec<bool>)
    requires
        pending@.len() == batch@.len(),
    ensures
        final(navigator).tasks@ == old(navigator).tasks@ + still_pending(batch@, pending@),
{
    let ghost spawned = navigator.tasks@;
    let ghost all = batch@;
    let count: usize = pending.len();
    let mut i: usize = 0;
    for task in it: batch.into_iter()
        invariant
            it.seq() == all,
            i == it.index(),
            count == pending@.len(),
            pending@.len() == all.len(),
            navigator.tasks@ == spawned + still_pending(
                all.take(i as int),
                pending@.take(i as int),
            ),
    {
        assert(all.take(i + 1).drop_last() =~= all.take(i as int));
        assert(pending@.take(i + 1).drop_last() =~= pending@.take(i as int));
        if pending[i] {
            navigator.tasks.push(task);
        }
        i += 1;
    }
    assert(all.take(all.len() as int) =~= all);
    assert(pending@.take(all.len() as int) =~= pending@);
}

/// Why a file could not be read.
#[derive(Clone, Copy, PartialEq, Eq, Structural, Debug)]
pub enum ReadError {
    /// There is no such file.
    NotFound,
    /// Any other error, by its number.
    Os(i32),
}

/// What reading a file comes to next.
pub enum ReadStep {
    /// Open the file of this path, which a zero byte ends.
    Open(Vec<u8>),
    /// Read some more of it.
    Read { fd: i32 },
    /// Close it; this is what came of it.
    Close { fd: i32, outcome: Result<Vec<u8>, ReadError> },
    /// It could not be opened.
    Failed(ReadError),
}

/// A file being read whole.
pub struct ReadWhole {
    pub fd: i32,
    pub bytes: Vec<u8>,
}

/// Begins to read a file whole.
pub fn read_whole(path: &str) -> (step: ReadStep)
    ensures
        step matches ReadStep::Open(c_path) && c_path@ == encode_utf8(path@).push(0u8),
{
    let mut c_path: Vec<u8> = vstd::slice::slice_to_vec(path.as_bytes());
    c_path.push(0);
    ReadStep::Open(c_path)
}

/// `file` is a file that was opened as `fd`, and `step` what reading it comes to.
pub open spec fn file_opened(fd: i32, errno: i32, file: ReadWhole, step: ReadStep) -> bool {
    &&& file.fd == fd
    &&& file.bytes@ == Seq::<u8>::empty()
    &&& step == if fd >= 0 {
        ReadStep::Read { fd }
    } else if errno == 2 {
        ReadStep::Failed(ReadError::NotFound)
    } else {
        ReadStep::Failed(ReadError::Os(errno))
    }
}

impl ReadWhole {
    /// `next` is this once `n` bytes of `chunk` were read, and `step` what comes
    /// after.
    pub open spec fn takes(
        self,
        next: ReadWhole,
        chunk: Seq<u8>,
        n: int,
        errno: i32,
        step: ReadStep,
    ) -> bool {
        &&& next.fd == self.fd
        &&& if n < 0 {
            &&& next == self
            &&& step == (ReadStep::Close { fd: self.fd, outcome: Err(ReadError::Os(errno)) })
        } else if n == 0 {
            &&& step matches ReadStep::Close { fd, outcome: Ok(bytes) }
            &&& fd == self.fd
            &&& bytes@ == self.bytes@
            &&& next.bytes@.len() == 0
        } else {
            &&& step == (ReadStep::Read { fd: self.fd })
            &&& next.bytes@ == self.bytes@ + chunk.take(n)
        }
    }

    /// The file was opened as `fd`, or was not where that is negative.
    pub fn opened(fd: i32, errno: i32) -> (r: (ReadWhole, ReadStep))
        ensures
            file_opened(fd, errno, r.0, r.1),
    {
        let file = ReadWhole { fd, bytes: Vec::new() };
        if fd < 0 {
            if errno == 2 {
                (file, ReadStep::Failed(ReadError::NotFound))
            } else {
                (file, ReadStep::Failed(ReadError::Os(errno)))
            }
        } else {
            (file, ReadStep::Read { fd })
        }
    }

    /// `n` bytes of `chunk` were read, none at the end of the file; a negative
    /// `n` is an error.
    pub fn took(&mut self, chunk: &[u8], n: i64, errno: i32) -> (step: ReadStep)
        requires
            n <= chunk@.len(),
        ensures
            old(self).takes(*final(self), chunk@, n as int, errno, step),
    {
        if n < 0 {
            ReadStep::Close { fd: self.fd, outcome: Err(ReadError::Os(errno)) }
        } else if n == 0 {
            let mut bytes: Vec<u8> = Vec::new();
            std::mem::swap(&mut bytes, &mut self.bytes);
            ReadStep::Close { fd: self.fd, outcome: Ok(bytes) }
        } else {
            let len: usize = chunk.len();
            assert(n <= len);
            self.bytes.extend_from_slice(vstd::slice::slice_subrange(chunk, 0, n as usize));
            assert(self.bytes@ =~= old(self).bytes@ + chunk@.take(n as int));
            ReadStep::Read { fd: self.fd }
        }
    }
}

/// A file that was read in chunks is the chunks, one behind the other, however
/// it was cut.
pub proof fn chunks_add_up(files: Seq<ReadWhole>, chunks: Seq<Seq<u8>>)
    requires
        files.len() == chunks.len() + 1,
        files[0].bytes@.len() == 0,
        forall|i: int|
            0 <= i < chunks.len() ==> files[i + 1].bytes@ == files[i].bytes@ + #[trigger] chunks[i],
    ensures
        files.last().bytes@ == chunks.flatten(),
    decreases chunks.len(),
{
    if chunks.len() == 0 {
        assert(files.last().bytes@ =~= chunks.flatten());
    } else {
        let k = chunks.len() - 1;
        assert forall|i: int| 0 <= i < chunks.drop_last().len() implies files.drop_last()[i
            + 1].bytes@ == files.drop_last()[i].bytes@ + #[trigger] chunks.drop_last()[i] by {
            let c = chunks[i];
        }
        chunks_add_up(files.drop_last(), chunks.drop_last());
        let c = chunks[k];
        chunks.lemma_flatten_and_flatten_alt_are_equivalent();
        chunks.drop_last().lemma_flatten_and_flatten_alt_are_equivalent();
    }
}

proof fn plain_pieces(s: Seq<char>)
    requires
        forall|k: int, i: int|
            0 <= k < split_at_each(s, '/').len() && 0 <= i < split_at_each(s, '/')[k].len()
                ==> plain_char(#[trigger] split_at_each(s, '/')[k][i]),
    ensures
        split_at_each(s, '/').len() > 0,
        forall|i: int| 0 <= i < s.len() ==> s[i] == '/' || plain_char(#[trigger] s[i]),
        s.len() > 0 && s[0] == '/' ==> split_at_each(s, '/')[0].len() == 0,
        s.len() == 0 ==> split_at_each(s, '/')[0].len() == 0,
    decreases s.len(),
{
    if s.len() > 0 {
        let front = s.drop_last();
        let all = split_at_each(s, '/');
        let before = split_at_each(front, '/');
        pieces_exist(front);
        assert forall|k: int, i: int| 0 <= k < before.len() && 0 <= i < before[k].len() implies plain_char(
            #[trigger] before[k][i]) by {
            assert(all[k][i] == before[k][i]);
        }
        plain_pieces(front);
        if s.last() != '/' {
            let k = before.len() - 1;
            assert(all[k][before[k].len() as int] == s.last());
        }
        assert forall|i: int| 0 <= i < s.len() implies s[i] == '/' || plain_char(
            #[trigger] s[i],
        ) by {
            if i < front.len() {
                assert(front[i] == s[i]);
            }
        }
        if s[0] == '/' {
            if front.len() == 0 {
                assert(all[0] == before[0]);
            } else {
                assert(front[0] == '/');
                assert(before[0].len() == 0);
                first_piece_ends(front);
                assert(all[0] == before[0]);
            }
        }
    }
}

proof fn pieces_exist(s: Seq<char>)
    ensures
        split_at_each(s, '/').len() > 0,
    decreases s.len(),
{
    if s.len() > 0 {
        pieces_exist(s.drop_last());
    }
}

proof fn first_piece_ends(s: Seq<char>)
    requires
        s.len() > 0,
        s[0] == '/',
    ensures
        split_at_each(s, '/').len() > 1,
    decreases s.len(),
{
    let front = s.drop_last();
    pieces_exist(front);
    if front.len() > 0 {
        assert(front[0] == '/');
        first_piece_ends(front);
    }
}

/// A plain path is a name of its own among the mounted files: what its URL comes
/// to is the path as it was written.
pub proof fn plain_paths_stay(path: Seq<char>)
    requires
        plain_path(path),
    ensures
        without_leading(at_root(path).path, '/') == path,
        !path.contains('%'),
        vfs_name("file"@, None, path) == path,
{
    let pieces = split_at_each(path, '/');
    assert forall|k: int, i: int| 0 <= k < pieces.len() && 0 <= i < pieces[k].len() implies plain_char(
        #[trigger] pieces[k][i]) by {
        assert(plain_name(pieces[k]));
    }
    plain_pieces(path);
    assert(plain_name(pieces[0]));
    assert(path.len() > 0 && path[0] != '/');
    let rooted = seq!['/'] + path;
    assert(rooted.drop_first() =~= path);
    assert(without_leading(rooted, '/') == without_leading(path, '/'));
    if path.contains('%') {
        let i = choose|i: int| 0 <= i < path.len() && path[i] == '%';
        assert(path[i] == '/' || plain_char(path[i]));
    }
    assert(Seq::<char>::empty() + path =~= path);
}

/// A plain name is a plain path.
pub proof fn plain_names_are_paths(name: Seq<char>)
    requires
        plain_name(name),
    ensures
        plain_path(name),
{
    one_piece(name);
}

proof fn one_piece(s: Seq<char>)
    requires
        forall|i: int| 0 <= i < s.len() ==> plain_char(#[trigger] s[i]),
    ensures
        split_at_each(s, '/') == seq![s],
    decreases s.len(),
{
    if s.len() > 0 {
        let front = s.drop_last();
        assert forall|i: int| 0 <= i < front.len() implies plain_char(#[trigger] front[i]) by {
            assert(front[i] == s[i]);
        }
        one_piece(front);
        assert(plain_char(s[s.len() - 1]));
        assert(front.push(s.last()) =~= s);
        assert(split_at_each(s, '/') =~= seq![s]);
    } else {
        assert(s =~= Seq::<char>::empty());
    }
}

proof fn no_slash_no_place(name: Seq<char>)
    requires
        !name.contains('/'),
    ensures
        last_at(name, '/') == -1,
    decreases name.len(),
{
    if name.len() > 0 {
        assert(name.contains(name[name.len() - 1]));
        let front = name.drop_last();
        assert forall|i: int| 0 <= i < front.len() implies front[i] != '/' by {
            assert(name.contains(name[i]));
        }
        no_slash_no_place(front);
    }
}

proof fn slash_before_name(dir: Seq<char>, name: Seq<char>)
    requires
        !name.contains('/'),
    ensures
        last_at(dir.push('/') + name, '/') == dir.len(),
    decreases name.len(),
{
    let path = dir.push('/') + name;
    if name.len() == 0 {
        assert(path =~= dir.push('/'));
    } else {
        assert(name.contains(name[name.len() - 1]));
        let front = name.drop_last();
        assert forall|i: int| 0 <= i < front.len() implies front[i] != '/' by {
            assert(name.contains(name[i]));
        }
        assert(path.drop_last() =~= dir.push('/') + front);
        slash_before_name(dir, front);
    }
}

/// A file mounted by its bare name is found from wherever a movie asks: the
/// second name tried for `dir/name` is `name`, whatever the directory.
pub proof fn directories_do_not_hide_files(dir: Seq<char>, name: Seq<char>)
    requires
        name.len() > 0,
        !name.contains('/'),
    ensures
        flat_name(dir.push('/') + name) == Some(name),
{
    slash_before_name(dir, name);
    assert((dir.push('/') + name).skip(dir.len() as int + 1) =~= name);
}

/// A bare name is tried once: there is no other name for it.
pub proof fn bare_names_are_tried_once(name: Seq<char>)
    requires
        !name.contains('/'),
    ensures
        flat_name(name) is None,
{
    no_slash_no_place(name);
}

/// A poll neither makes up a load nor puts one out of order: what is left of a
/// batch is a part of it, and all of it where nothing is done.
pub proof fn polling_keeps_order<T>(batch: Seq<T>, pending: Seq<bool>)
    requires
        pending.len() == batch.len(),
    ensures
        still_pending(batch, pending).len() <= batch.len(),
        (forall|i: int| 0 <= i < pending.len() ==> pending[i]) ==> still_pending(batch, pending)
            == batch,
        (forall|i: int| 0 <= i < pending.len() ==> !pending[i]) ==> still_pending(
            batch,
            pending,
        ).len() == 0,
    decreases batch.len(),
{
    if batch.len() > 0 {
        polling_keeps_order(batch.drop_last(), pending.drop_last());
        if forall|i: int| 0 <= i < pending.len() ==> pending[i] {
            assert forall|i: int| 0 <= i < pending.drop_last().len() implies pending.drop_last()[i] by {
                assert(pending[i]);
            }
            assert(pending[pending.len() - 1]);
            assert(batch.drop_last().push(batch.last()) =~= batch);
        }
        if forall|i: int| 0 <= i < pending.len() ==> !pending[i] {
            assert forall|i: int| 0 <= i < pending.drop_last().len() implies !pending.drop_last()[i] by {
                assert(!pending[i]);
            }
            assert(!pending[pending.len() - 1]);
        }
    } else {
        assert(still_pending(batch, pending) =~= batch);
    }
}

/// The name of a file URL is its path alone; that of any other is its host, where
/// it has one, and its path, with a slash between where both are something.
pub proof fn a_name_is_host_and_path(scheme: Seq<char>, host: Seq<char>, decoded: Seq<char>)
    ensures
        forall|h: Option<Seq<char>>| #[trigger] vfs_name("file"@, h, decoded) == decoded,
        vfs_name(scheme, None, decoded) == decoded,
        scheme != "file"@ && host.len() > 0 && decoded.len() > 0 ==> vfs_name(
            scheme,
            Some(host),
            decoded,
        ) == host + seq!['/'] + decoded,
        scheme != "file"@ ==> vfs_name(scheme, Some(host), Seq::empty()) == host,
        scheme != "file"@ ==> vfs_name(scheme, Some(Seq::empty()), decoded) == decoded,
{
    assert forall|h: Option<Seq<char>>| #[trigger] vfs_name("file"@, h, decoded) == decoded by {
        assert(Seq::<char>::empty() + decoded =~= decoded);
    }
    assert(Seq::<char>::empty() + decoded =~= decoded);
    assert(host + Seq::<char>::empty() =~= host);
    if scheme != "file"@ && host.len() > 0 && decoded.len() > 0 {
        assert(vfs_name(scheme, Some(host), decoded) =~= host + seq!['/'] + decoded);
    }
}

/// A file is looked up under the path of its URL, decoded, without the slashes
/// that it starts with, and behind its host unless it is a file URL.
pub proof fn a_url_is_looked_up_by_its_path(l: LocationView, path: Seq<char>)
    requires
        path.len() == 0 || path[0] != '/',
        l.path == seq!['/'] + path || l.path == path,
    ensures
        vfs_path(l) == vfs_name(l.scheme, l.host, percent_decoded(path)),
{
    only_what_leads_is_dropped(path, '/');
}

/// An escape is the byte that its two hexadecimal digits are, in letters of either
/// case, and what is no escape is itself, each ahead of what follows.
pub proof fn an_escape_is_its_byte(b: u8, high: u8, low: u8, rest: Seq<u8>)
    ensures
        0x30 <= b <= 0x39 ==> hex_value(b) == Some((b - 0x30) as u8),
        0x41 <= b <= 0x46 ==> hex_value(b) == Some((b - 0x41 + 10) as u8),
        0x61 <= b <= 0x66 ==> hex_value(b) == Some((b - 0x61 + 10) as u8),
        !(0x30 <= b <= 0x39 || 0x41 <= b <= 0x46 || 0x61 <= b <= 0x66) ==> hex_value(b) is None,
        unescaped(Seq::<u8>::empty()) == Seq::<u8>::empty(),
        b != 0x25 ==> unescaped(seq![b] + rest) == seq![b] + unescaped(rest),
        hex_value(high) is Some && hex_value(low) is Some ==> unescaped(
            seq![0x25u8, high, low] + rest,
        ) == seq![(16 * hex_value(high)->0 + hex_value(low)->0) as u8] + unescaped(rest),
        rest.len() < 2 || hex_value(rest[0]) is None || hex_value(rest[1]) is None ==> unescaped(
            seq![0x25u8] + rest,
        ) == seq![0x25u8] + unescaped(rest),
{
    assert((seq![b] + rest).skip(1) =~= rest);
    assert((seq![0x25u8] + rest).skip(1) =~= rest);
    assert((seq![0x25u8, high, low] + rest).skip(3) =~= rest);
    let lone = seq![0x25u8] + rest;
    if rest.len() >= 2 {
        assert(lone[1] == rest[0] && lone[2] == rest[1]);
    }
}

/// A directory has no other name to look under.
pub proof fn a_directory_has_no_flat_name(dir: Seq<char>)
    ensures
        flat_name(dir.push('/')) is None,
{
    the_tail_is_behind_the_last(dir, Seq::empty(), '/');
    assert(dir.push('/') + Seq::<char>::empty() =~= dir.push('/'));
}

/// A load of what is no URL is refused with what was asked for; a load of any
/// other first reads the file that its URL names.
pub proof fn a_load_begins_with_the_file_it_names(
    step: FetchStep,
    url: Seq<char>,
    r: Result<LocationView, Seq<char>>,
)
    requires
        fetch_begins(step, url, r),
    ensures
        r matches Err(e) ==> (step matches FetchStep::Invalid { url: u, error } && u@ == url
            && error@ == e),
        r matches Ok(l) ==> (step matches FetchStep::Read { fetch, name } && name@ == vfs_path(l)
            && fetch.path@ == vfs_path(l) && fetch.location@ == l && !fetch.flat_tried),
{
}

/// A load of `dir/name` reads that file, and where it is not there the file `name`,
/// and no third. The first of them that is there is handed over, under the URL
/// that was asked for, with nothing of it handed over yet; where neither is, the
/// load ends with why the last was not, and with the name that was asked for.
pub proof fn a_load_tries_two_names(
    fetch: Fetch,
    dir: Seq<char>,
    name: Seq<char>,
    first: Result<Vec<u8>, String>,
    after_first: FetchStep,
    second: Result<Vec<u8>, String>,
    after_second: FetchStep,
)
    requires
        fetch.path@ == dir.push('/') + name,
        name.len() > 0,
        !name.contains('/'),
        !fetch.flat_tried,
        fetch.settles(first, after_first),
        after_first matches FetchStep::Read { fetch: again, name: _ } ==> again.settles(
            second,
            after_second,
        ),
    ensures
        first matches Ok(body) ==> after_first == FetchStep::Found(
            GuestResponse { url: fetch.location.href, body, chunk_gotten: false },
        ),
        first is Err ==> (after_first matches FetchStep::Read { fetch: _, name: n } && n@ == name),
        first is Err ==> match second {
            Ok(body) => after_second == FetchStep::Found(
                GuestResponse { url: fetch.location.href, body, chunk_gotten: false },
            ),
            Err(e) => after_second == (FetchStep::Missing {
                url: fetch.location.href,
                path: fetch.path,
                error: e,
            }),
        },
{
    directories_do_not_hide_files(dir, name);
}

/// A load of a bare name reads that file and no other.
pub proof fn a_load_of_a_bare_name_tries_one(
    fetch: Fetch,
    read: Result<Vec<u8>, String>,
    step: FetchStep,
)
    requires
        !fetch.path@.contains('/'),
        fetch.settles(read, step),
    ensures
        match read {
            Ok(body) => step == FetchStep::Found(
                GuestResponse { url: fetch.location.href, body, chunk_gotten: false },
            ),
            Err(e) => step == (FetchStep::Missing {
                url: fetch.location.href,
                path: fetch.path,
                error: e,
            }),
        },
{
    bare_names_are_tried_once(fetch.path@);
}

/// A file streams as itself, once, and then as nothing, however often it is asked.
pub proof fn a_body_streams_once(
    r: GuestResponse,
    then: GuestResponse,
    last: GuestResponse,
    first: Option<Vec<u8>>,
    second: Option<Vec<u8>>,
)
    requires
        !r.chunk_gotten,
        r.streams(then, first),
        then.streams(last, second),
    ensures
        first matches Some(b) && b@ == r.body@,
        second is None,
        last == then,
        then.body == r.body && then.url == r.url,
{
}

/// The loads that a poll leaves are those of its parts, and a load is left exactly
/// where it is pending.
pub proof fn a_poll_is_of_each_load<T>(
    batch: Seq<T>,
    pending: Seq<bool>,
    task: T,
    is_pending: bool,
)
    requires
        pending.len() == batch.len(),
    ensures
        still_pending(Seq::<T>::empty(), Seq::<bool>::empty()).len() == 0,
        still_pending(batch.push(task), pending.push(is_pending)) == if is_pending {
            still_pending(batch, pending).push(task)
        } else {
            still_pending(batch, pending)
        },
{
    assert(batch.push(task).drop_last() =~= batch);
    assert(pending.push(is_pending).drop_last() =~= pending);
}

/// A file that could not be opened fails, as missing where the error is the one
/// for that and by its number otherwise; one that was opened is read.
pub proof fn an_opened_file_is_read(fd: i32, errno: i32, file: ReadWhole, step: ReadStep)
    requires
        file_opened(fd, errno, file, step),
    ensures
        file.bytes@.len() == 0,
        fd >= 0 ==> step == (ReadStep::Read { fd }) && file.fd == fd,
        fd < 0 && errno == 2 ==> step == ReadStep::Failed(ReadError::NotFound),
        fd < 0 && errno != 2 ==> step == ReadStep::Failed(ReadError::Os(errno)),
{
}

/// Reading a file takes what was read behind what it has, goes on while something
/// was, and closes the same file at its end, with all of it, or at an error, with
/// that.
pub proof fn reading_goes_on_to_the_end(
    file: ReadWhole,
    next: ReadWhole,
    chunk: Seq<u8>,
    n: int,
    errno: i32,
    step: ReadStep,
)
    requires
        n <= chunk.len(),
        file.takes(next, chunk, n, errno, step),
    ensures
        n > 0 ==> {
            &&& step == (ReadStep::Read { fd: file.fd })
            &&& next.fd == file.fd
            &&& next.bytes@.len() == file.bytes@.len() + n
            &&& next.bytes@ == file.bytes@ + chunk.take(n)
        },
        n == 0 ==> (step matches ReadStep::Close { fd, outcome: Ok(bytes) } && fd == file.fd
            && bytes@ == file.bytes@),
        n < 0 ==> step == (ReadStep::Close { fd: file.fd, outcome: Err(ReadError::Os(errno)) }),
{
}

/// A URL is read against the root of the mounted files, and by itself where it
/// cannot be.
pub proof fn a_url_is_read_against_the_root(url: Seq<char>)
    ensures
        url_joined("file:///"@, url) matches Ok(l) ==> resolved(url) == Ok::<
            LocationView,
            Seq<char>,
        >(l),
        url_joined("file:///"@, url) is Err ==> resolved(url) == url_parsed(url),
{
}

} // verus!
