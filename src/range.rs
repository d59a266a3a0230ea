//! Byte ranges: what a `Range` header asks of a file of a given size, and
//! how the answer is framed.
use vstd::prelude::*;
use vstd::utf8::is_ascii_chars;
use crate::text::{
    all_digits, decimal, digits_value, is_digit, lemma_decimal, lemma_digits_value_grows,
    lemma_parse_decimal, parse_u64_spec, push_decimal, same_text,
};

verus! {

/// Size of one body chunk read from disk.
pub const CHUNK_SIZE: u64 = 65536;

pub open spec fn bytes_prefix() -> Seq<char> {
    seq!['b', 'y', 't', 'e', 's', '=']
}

/// Index of the first `c` at or after `i`, or -1.
pub open spec fn find_from(s: Seq<char>, c: char, i: int) -> int
    decreases s.len() - i,
{
    if i < 0 || i >= s.len() {
        -1
    } else if s[i] == c {
        i
    } else {
        find_from(s, c, i + 1)
    }
}

pub open spec fn lacks(s: Seq<char>, c: char) -> bool {
    forall|i: int| 0 <= i < s.len() ==> s[i] != c
}

/// The window of a `start-end` pair whose halves are `a` and `b`.
pub open spec fn window_spec(a: Seq<char>, b: Seq<char>, size: u64) -> Option<(u64, u64)> {
    if a.len() == 0 {
        // suffix form: the last `k` bytes
        match parse_u64_spec(b) {
            Some(k) => if k == 0 || size == 0 {
                None
            } else if k >= size {
                Some((0u64, (size - 1) as u64))
            } else {
                Some(((size - k) as u64, (size - 1) as u64))
            },
            None => None,
        }
    } else {
        match parse_u64_spec(a) {
            Some(s) => if b.len() == 0 {
                if s >= size {
                    None
                } else {
                    Some((s, (size - 1) as u64))
                }
            } else {
                match parse_u64_spec(b) {
                    Some(e) => if s > e || s >= size {
                        None
                    } else if e >= size {
                        Some((s, (size - 1) as u64))
                    } else {
                        Some((s, e))
                    },
                    None => None,
                }
            },
            None => None,
        }
    }
}

/// The inclusive byte window `(start, end)` that header `h` selects in a
/// file of `size` bytes, or `None` where the header is to be ignored.
pub open spec fn range_spec(h: Seq<char>, size: u64) -> Option<(u64, u64)> {
    if !is_ascii_chars(h) || h.len() < 6 || h.subrange(0, 6) != bytes_prefix() {
        None
    } else {
        let rest = h.subrange(6, h.len() as int);
        let d = find_from(rest, '-', 0);
        if d < 0 || !lacks(rest.subrange(d + 1, rest.len() as int), '-') {
            None
        } else {
            window_spec(rest.subrange(0, d), rest.subrange(d + 1, rest.len() as int), size)
        }
    }
}

/// The bytes of `b` are the characters of the ASCII text `h`.
pub open spec fn ascii_bytes(b: Seq<u8>, h: Seq<char>) -> bool {
    &&& b.len() == h.len()
    &&& is_ascii_chars(h)
    &&& forall|i: int| 0 <= i < b.len() ==> b[i] == #[trigger] h[i] as u8
}

/// Reads `h[lo..hi]` as a `u64`, as `str::parse` does.
pub(crate) fn parse_u64_at(b: &[u8], lo: usize, hi: usize, Ghost(h): Ghost<Seq<char>>) -> (r: Option<u64>)
    requires
        lo <= hi <= b@.len(),
        ascii_bytes(b@, h),
    ensures
        r == parse_u64_spec(h.subrange(lo as int, hi as int)),
{
    let ghost s = h.subrange(lo as int, hi as int);
    let mut i = lo;
    if i < hi && b[i] == 43 {
        i = i + 1;
    }
    let start = i;
    let ghost body = h.subrange(start as int, hi as int);
    assert(body =~= (if s.len() > 0 && s[0] == '+' { s.drop_first() } else { s }));
    if start == hi {
        return None;
    }
    let mut v: u64 = 0;
    while i < hi
        invariant
            lo <= start <= i <= hi <= b@.len(),
            ascii_bytes(b@, h),
            s == h.subrange(lo as int, hi as int),
            body == h.subrange(start as int, hi as int),
            body == (if s.len() > 0 && s[0] == '+' { s.drop_first() } else { s }),
            all_digits(h.subrange(start as int, i as int)),
            v as int == digits_value(h.subrange(start as int, i as int)),
        decreases hi - i,
    {
        let c = b[i];
        assert(h[i as int] as u8 == c);
        if c < 48 || c > 57 {
            assert(body[i - start] == h[i as int]);
            assert(!is_digit(body[i - start]));
            return None;
        }
        let d: u64 = (c - 48) as u64;
        let ghost next = h.subrange(start as int, i + 1);
        assert(next.drop_last() =~= h.subrange(start as int, i as int));
        assert(next.last() == h[i as int]);
        if v > (u64::MAX - d) / 10 {
            assert(v * 10 + d > u64::MAX) by (nonlinear_arith)
                requires
                    v > (u64::MAX - d) / 10,
                    d <= 9,
            ;
            proof {
                if all_digits(body) {
                    assert(body.subrange(0, i + 1 - start) =~= next);
                    lemma_digits_value_grows(body, i + 1 - start);
                }
            }
            return None;
        }
        v = v * 10 + d;
        i = i + 1;
        assert forall|j: int| 0 <= j < next.len() implies #[trigger] is_digit(next[j]) by {
            if j < next.len() - 1 {
                assert(next[j] == h.subrange(start as int, i - 1)[j]);
            }
        }
    }
    assert(h.subrange(start as int, i as int) =~= body);
    Some(v)
}

/// Parses a `Range` header against a file of `file_size` bytes. Only the
/// single-range `bytes=<start>-<end>` form is taken; `bytes=-<k>` asks for
/// the last `k` bytes and `bytes=<start>-` for all bytes from `start`. The
/// end is clamped to the last byte. `None` means the header is ignored:
/// malformed, several ranges, `start > end`, or `start` past the file.
pub fn parse_range(range_header: &str, file_size: u64) -> (r: Option<(u64, u64)>)
    ensures
        r == range_spec(range_header@, file_size),
        r matches Some((s, e)) ==> s <= e < file_size,
{
    let ghost h = range_header@;
    if !range_header.is_ascii() {
        return None;
    }
    let b = range_header.as_bytes();
    proof {
        vstd::string::is_ascii_spec_bytes(range_header);
    }
    assert(ascii_bytes(b@, h));
    let n = b.len();
    if n < 6 {
        return None;
    }
    let p = b[0] == 98 && b[1] == 121 && b[2] == 116 && b[3] == 101 && b[4] == 115 && b[5] == 61;
    assert(h[0] as u8 == b@[0] && h[1] as u8 == b@[1] && h[2] as u8 == b@[2]);
    assert(h[3] as u8 == b@[3] && h[4] as u8 == b@[4] && h[5] as u8 == b@[5]);
    if !p {
        assert(h.subrange(0, 6) != bytes_prefix()) by {
            if h.subrange(0, 6) == bytes_prefix() {
                assert(h.subrange(0, 6)[0] == h[0]);
                assert(h.subrange(0, 6)[1] == h[1]);
                assert(h.subrange(0, 6)[2] == h[2]);
                assert(h.subrange(0, 6)[3] == h[3]);
                assert(h.subrange(0, 6)[4] == h[4]);
                assert(h.subrange(0, 6)[5] == h[5]);
            }
        }
        return None;
    }
    assert(h.subrange(0, 6) =~= bytes_prefix());
    let ghost rest = h.subrange(6, h.len() as int);
    // first dash
    let mut i: usize = 6;
    while i < n && b[i] != 45
        invariant
            6 <= i <= n == b@.len(),
            ascii_bytes(b@, h),
            rest == h.subrange(6, h.len() as int),
            h == range_header@,
            h.subrange(0, 6) == bytes_prefix(),
            find_from(rest, '-', 0) == find_from(rest, '-', i - 6),
        decreases n - i,
    {
        assert(h[i as int] as u8 == b@[i as int]);
        assert(rest[i - 6] == h[i as int]);
        i = i + 1;
    }
    if i == n {
        assert(find_from(rest, '-', i - 6) == -1);
        return None;
    }
    let dash = i;
    assert(h[dash as int] as u8 == b@[dash as int]);
    assert(rest[dash - 6] == '-');
    assert(find_from(rest, '-', 0) == dash - 6);
    // no second dash
    let mut j: usize = dash + 1;
    while j < n
        invariant
            6 <= dash < j <= n == b@.len(),
            ascii_bytes(b@, h),
            rest == h.subrange(6, h.len() as int),
            h == range_header@,
            h.subrange(0, 6) == bytes_prefix(),
            find_from(rest, '-', 0) == dash - 6,
            lacks(h.subrange(dash + 1, j as int), '-'),
        decreases n - j,
    {
        assert(h[j as int] as u8 == b@[j as int]);
        if b[j] == 45 {
            assert(h[j as int] == '-');
            assert(rest.subrange(dash - 6 + 1, rest.len() as int)[j - dash - 1] == h[j as int]);
            return None;
        }
        assert(forall|k: int|
            0 <= k < j + 1 - dash - 1 ==> #[trigger] h.subrange(dash + 1, j + 1)[k] == h[dash + 1 + k]);
        j = j + 1;
    }
    assert(rest.subrange(dash - 6 + 1, rest.len() as int) =~= h.subrange(dash + 1, n as int));
    assert(rest.subrange(0, dash - 6) =~= h.subrange(6, dash as int));
    let ghost a = h.subrange(6, dash as int);
    let ghost bb = h.subrange(dash + 1, n as int);
    let a_empty = dash == 6;
    let b_empty = dash + 1 == n;
    if a_empty {
        match parse_u64_at(b, dash + 1, n, Ghost(h)) {
            None => None,
            Some(k) => {
                if k == 0 || file_size == 0 {
                    None
                } else if k >= file_size {
                    Some((0, file_size - 1))
                } else {
                    Some((file_size - k, file_size - 1))
                }
            },
        }
    } else {
        match parse_u64_at(b, 6, dash, Ghost(h)) {
            None => None,
            Some(s) => {
                if b_empty {
                    assert(bb.len() == 0);
                    if s >= file_size {
                        None
                    } else {
                        Some((s, file_size - 1))
                    }
                } else {
                    match parse_u64_at(b, dash + 1, n, Ghost(h)) {
                        None => None,
                        Some(e) => {
                            if s > e || s >= file_size {
                                None
                            } else if e >= file_size {
                                Some((s, file_size - 1))
                            } else {
                                Some((s, e))
                            }
                        },
                    }
                }
            },
        }
    }
}

/// The window a request selects: `None` where no `Range` header came or it
/// is ignored.
pub open spec fn selected_window(h: Option<Seq<char>>, size: u64) -> Option<(u64, u64)> {
    match h {
        Some(t) => range_spec(t, size),
        None => None,
    }
}

/// `bytes <start>-<end>/<size>`
pub open spec fn content_range_text(s: u64, e: u64, size: u64) -> Seq<char> {
    seq!['b', 'y', 't', 'e', 's', ' '] + decimal(s as nat) + seq!['-'] + decimal(e as nat) + seq!['/']
        + decimal(size as nat)
}

/// How a stream request is answered: the status, the byte window of the
/// file that forms the body, and the `Content-Range` value of a partial
/// answer. Every answer also carries `Accept-Ranges: bytes`, a
/// `Content-Length` of `length`, and the file's content type.
pub struct ResponsePlan {
    pub status: u16,
    pub start: u64,
    pub length: u64,
    pub content_range: Option<String>,
    pub content_type: &'static str,
    pub accept_ranges: &'static str,
}

/// Plans the answer for the file at `path`, of `file_size` bytes: `206
/// Partial Content` with the selected window where the `Range` header
/// parses, else `200 OK` with the whole file; with the content type of the
/// path's extension and `Accept-Ranges: bytes` either way.
pub fn plan_response(path: &str, file_size: u64, range_header: Option<&str>) -> (p: ResponsePlan)
    ensures
        p.content_type@ == mime_for(extension_of(path@)),
        p.accept_ranges@ == "bytes"@,
        match selected_window(
            match range_header {
                Some(t) => Some(t@),
                None => None,
            },
            file_size,
        ) {
            Some((s, e)) => {
                &&& p.status == 206
                &&& p.start == s
                &&& p.length == e - s + 1
                &&& p.content_range matches Some(t) && t@ == content_range_text(s, e, file_size)
            },
            None => {
                &&& p.status == 200
                &&& p.start == 0
                &&& p.length == file_size
                &&& p.content_range is None
            },
        },
{
    let content_type = get_content_type(path);
    let w = match range_header {
        Some(t) => parse_range(t, file_size),
        None => None,
    };
    match w {
        Some((s, e)) => {
            proof {
                reveal_strlit("bytes ");
                reveal_strlit("-");
                reveal_strlit("/");
            }
            let mut t = String::from_str("bytes ");
            push_decimal(&mut t, s);
            t.append("-");
            push_decimal(&mut t, e);
            t.append("/");
            push_decimal(&mut t, file_size);
            assert(t@ =~= content_range_text(s, e, file_size));
            ResponsePlan {
                status: 206,
                start: s,
                length: e - s + 1,
                content_range: Some(t),
                content_type,
                accept_ranges: "bytes",
            }
        },
        None => ResponsePlan {
            status: 200,
            start: 0,
            length: file_size,
            content_range: None,
            content_type,
            accept_ranges: "bytes",
        },
    }
}

/// Why a stream request gets no body.
pub enum StreamFailure {
    /// The stream id is not registered.
    UnknownStream,
    /// The registered path no longer names a file.
    FileMissing,
    /// The file exists but could not be opened or measured.
    FileUnreadable,
}

impl StreamFailure {
    /// The HTTP status of the failure: 404 for an unknown stream or a
    /// missing file, 500 for any other failure to read.
    pub fn status(&self) -> (r: u16)
        ensures
            r == match self {
                StreamFailure::UnknownStream => 404u16,
                StreamFailure::FileMissing => 404u16,
                StreamFailure::FileUnreadable => 500u16,
            },
    {
        match self {
            StreamFailure::UnknownStream => 404,
            StreamFailure::FileMissing => 404,
            StreamFailure::FileUnreadable => 500,
        }
    }
}

/// What is left to send of a body that is read from disk in chunks.
pub struct BodyStream {
    pub remaining: u64,
}

impl BodyStream {
    pub fn new(length: u64) -> (r: BodyStream)
        ensures
            r.remaining == length,
    {
        BodyStream { remaining: length }
    }

    /// How many bytes the next read asks for: a full chunk, or what is
    /// left; zero once the body is complete.
    pub fn next_read_len(&self) -> (r: usize)
        ensures
            r == if self.remaining < CHUNK_SIZE {
                self.remaining
            } else {
                CHUNK_SIZE
            },
    {
        if self.remaining < CHUNK_SIZE {
            self.remaining as usize
        } else {
            CHUNK_SIZE as usize
        }
    }

    /// Records a read of `n` bytes, and says whether to read again: not
    /// after an empty read (end of file), nor once the window is sent.
    pub fn record_read(&mut self, n: usize) -> (more: bool)
        requires
            n <= old(self).remaining,
        ensures
            final(self).remaining == old(self).remaining - n,
            more == (n > 0 && final(self).remaining > 0),
    {
        self.remaining = self.remaining - n as u64;
        n > 0 && self.remaining > 0
    }
}

/// Index of the last `c` before `end`, or -1.
pub open spec fn last_index(p: Seq<char>, c: char, end: int) -> int
    decreases end,
{
    if end <= 0 {
        -1
    } else if p[end - 1] == c {
        end - 1
    } else {
        last_index(p, c, end - 1)
    }
}

/// `end` with the trailing `/` characters before it dropped.
pub open spec fn trim_slashes(p: Seq<char>, end: int) -> int
    decreases end,
{
    if end > 0 && p[end - 1] == '/' {
        trim_slashes(p, end - 1)
    } else {
        end
    }
}

/// The extension of a path: what follows the last `.` of its final
/// segment, where that dot is not the segment's first character.
pub open spec fn extension_of(p: Seq<char>) -> Option<Seq<char>> {
    let e = trim_slashes(p, p.len() as int);
    let seg = last_index(p, '/', e) + 1;
    let dot = last_index(p, '.', e);
    if dot <= seg {
        None
    } else {
        Some(p.subrange(dot + 1, e))
    }
}

/// The content type served for a file extension.
pub open spec fn mime_for(ext: Option<Seq<char>>) -> Seq<char> {
    match ext {
        Some(x) => if x == "mp4"@ {
            "video/mp4"@
        } else if x == "mkv"@ {
            "video/x-matroska"@
        } else if x == "mov"@ {
            "video/quicktime"@
        } else if x == "avi"@ {
            "video/x-msvideo"@
        } else if x == "webm"@ {
            "video/webm"@
        } else if x == "m4v"@ {
            "video/x-m4v"@
        } else if x == "ts"@ {
            "video/mp2t"@
        } else if x == "mp3"@ {
            "audio/mpeg"@
        } else if x == "m4a"@ {
            "audio/mp4"@
        } else if x == "flac"@ {
            "audio/flac"@
        } else if x == "wav"@ {
            "audio/wav"@
        } else if x == "ogg"@ {
            "audio/ogg"@
        } else {
            "application/octet-stream"@
        },
        None => "application/octet-stream"@,
    }
}

pub proof fn lemma_last_index_bounds(p: Seq<char>, c: char, end: int)
    ensures
        -1 <= last_index(p, c, end) < (if end > 0 { end } else { 0 }),
    decreases end,
{
    if end > 0 {
        lemma_last_index_bounds(p, c, end - 1);
    }
}

/// One past the index of the last `c` in `path[..end]`; 0 where there is none.
pub(crate) fn last_index_exec(path: &str, c: char, end: usize) -> (r: usize)
    requires
        end <= path@.len(),
    ensures
        r == last_index(path@, c, end as int) + 1,
        r <= end,
{
    proof {
        lemma_last_index_bounds(path@, c, end as int);
    }
    let mut i = end;
    while i > 0 && path.get_char(i - 1) != c
        invariant
            i <= end <= path@.len(),
            last_index(path@, c, end as int) == last_index(path@, c, i as int),
        decreases i,
    {
        i = i - 1;
    }
    i
}

/// The content type of a file, from the extension of its path.
pub fn get_content_type(path: &str) -> (r: &'static str)
    ensures
        r@ == mime_for(extension_of(path@)),
{
    let n = path.unicode_len();
    let mut e = n;
    while e > 0 && path.get_char(e - 1) == '/'
        invariant
            e <= n == path@.len(),
            trim_slashes(path@, n as int) == trim_slashes(path@, e as int),
        decreases e,
    {
        e = e - 1;
    }
    // both are one past the index found
    let seg = last_index_exec(path, '/', e);
    let dot = last_index_exec(path, '.', e);
    if dot == 0 || dot - 1 <= seg {
        return "application/octet-stream";
    }
    let ext = path.substring_char(dot, e).to_owned();
    if same_text(&ext, "mp4") {
        "video/mp4"
    } else if same_text(&ext, "mkv") {
        "video/x-matroska"
    } else if same_text(&ext, "mov") {
        "video/quicktime"
    } else if same_text(&ext, "avi") {
        "video/x-msvideo"
    } else if same_text(&ext, "webm") {
        "video/webm"
    } else if same_text(&ext, "m4v") {
        "video/x-m4v"
    } else if same_text(&ext, "ts") {
        "video/mp2t"
    } else if same_text(&ext, "mp3") {
        "audio/mpeg"
    } else if same_text(&ext, "m4a") {
        "audio/mp4"
    } else if same_text(&ext, "flac") {
        "audio/flac"
    } else if same_text(&ext, "wav") {
        "audio/wav"
    } else if same_text(&ext, "ogg") {
        "audio/ogg"
    } else {
        "application/octet-stream"
    }
}

/// The header text `bytes=<a>-<b>`, the numbers in decimal.
pub open spec fn range_header_text(a: u64, b: u64) -> Seq<char> {
    bytes_prefix() + decimal(a as nat) + seq!['-'] + decimal(b as nat)
}

/// The header text `bytes=-<k>`.
pub open spec fn suffix_header_text(k: u64) -> Seq<char> {
    bytes_prefix() + seq!['-'] + decimal(k as nat)
}

proof fn lemma_find_first(s: Seq<char>, c: char, k: int, i: int)
    requires
        0 <= i <= k < s.len(),
        s[k] == c,
        forall|j: int| 0 <= j < k ==> s[j] != c,
    ensures
        find_from(s, c, i) == k,
    decreases k - i,
{
    if i < k {
        lemma_find_first(s, c, k, i + 1);
    }
}

proof fn lemma_decimal_plain(n: u64)
    ensures
        decimal(n as nat).len() >= 1,
        lacks(decimal(n as nat), '-'),
        is_ascii_chars(decimal(n as nat)),
        parse_u64_spec(decimal(n as nat)) == Some(n),
{
    lemma_decimal(n as nat);
    lemma_parse_decimal(n);
    let d = decimal(n as nat);
    assert forall|i: int| 0 <= i < d.len() implies d[i] != '-' && '\0' <= #[trigger] d[i] <= '\u{7f}' by {
        assert(is_digit(d[i]));
    }
}

/// How `bytes=<a>-<b>` splits: the halves are the two decimal texts.
proof fn lemma_split_range_header(a: u64, b: u64)
    ensures
        ({
            let h = range_header_text(a, b);
            let rest = h.subrange(6, h.len() as int);
            let d = find_from(rest, '-', 0);
            &&& is_ascii_chars(h)
            &&& h.len() >= 6
            &&& h.subrange(0, 6) == bytes_prefix()
            &&& d == decimal(a as nat).len()
            &&& lacks(rest.subrange(d + 1, rest.len() as int), '-')
            &&& rest.subrange(0, d) == decimal(a as nat)
            &&& rest.subrange(d + 1, rest.len() as int) == decimal(b as nat)
        }),
{
    lemma_decimal_plain(a);
    lemma_decimal_plain(b);
    let da = decimal(a as nat);
    let db = decimal(b as nat);
    let h = range_header_text(a, b);
    let rest = h.subrange(6, h.len() as int);
    assert(rest =~= da + seq!['-'] + db);
    assert(h.subrange(0, 6) =~= bytes_prefix());
    assert(rest[da.len() as int] == '-');
    assert forall|j: int| 0 <= j < da.len() implies rest[j] != '-' by {
        assert(rest[j] == da[j]);
    }
    lemma_find_first(rest, '-', da.len() as int, 0);
    assert(rest.subrange(0, da.len() as int) =~= da);
    assert(rest.subrange(da.len() as int + 1, rest.len() as int) =~= db);
    assert forall|i: int| 0 <= i < h.len() implies '\0' <= #[trigger] h[i] <= '\u{7f}' by {
        if i >= 6 {
            assert(h[i] == rest[i - 6]);
            if i - 6 < da.len() {
                assert(rest[i - 6] == da[i - 6]);
            } else if i - 6 > da.len() {
                assert(rest[i - 6] == db[i - 6 - da.len() - 1]);
            }
        }
    }
}

/// For `0 <= a <= b < size`, the header `bytes=a-b` selects exactly the
/// bytes `a..=b`: the answer is `206` with `b - a + 1` bytes starting at
/// `a` and the `Content-Range` `bytes a-b/size`.
pub proof fn lemma_exact_range(a: u64, b: u64, size: u64)
    requires
        a <= b < size,
    ensures
        range_spec(range_header_text(a, b), size) == Some((a, b)),
        selected_window(Some(range_header_text(a, b)), size) == Some((a, b)),
{
    lemma_split_range_header(a, b);
    lemma_decimal_plain(a);
    lemma_decimal_plain(b);
}

/// A header `bytes=a-b` with `a > b`, or with `a` at or past the end of the
/// file, is ignored: the whole file is sent with `200`.
pub proof fn lemma_rejected_range(a: u64, b: u64, size: u64)
    requires
        a > b || a >= size,
    ensures
        range_spec(range_header_text(a, b), size) is None,
        selected_window(Some(range_header_text(a, b)), size) is None,
{
    lemma_split_range_header(a, b);
    lemma_decimal_plain(a);
    lemma_decimal_plain(b);
}

/// For `0 < k < size`, the header `bytes=-k` selects the last `k` bytes.
pub proof fn lemma_suffix_range(k: u64, size: u64)
    requires
        0 < k < size,
    ensures
        range_spec(suffix_header_text(k), size) == Some(((size - k) as u64, (size - 1) as u64)),
{
    lemma_decimal_plain(k);
    let dk = decimal(k as nat);
    let h = suffix_header_text(k);
    let rest = h.subrange(6, h.len() as int);
    assert(rest =~= seq!['-'] + dk);
    assert(h.subrange(0, 6) =~= bytes_prefix());
    lemma_find_first(rest, '-', 0, 0);
    assert(rest.subrange(0, 0) =~= Seq::<char>::empty());
    assert(rest.subrange(1, rest.len() as int) =~= dk);
    assert forall|i: int| 0 <= i < h.len() implies '\0' <= #[trigger] h[i] <= '\u{7f}' by {
        if i >= 7 {
            assert(h[i] == dk[i - 7]);
        }
    }
}

} // verus!
