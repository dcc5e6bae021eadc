//! Where the service listens, and the addresses of what it serves.

use vstd::prelude::*;

verus! {

/// The address the service binds to: every interface, and a port that the
/// system picks.
pub const BIND_ADDRESS: &'static str = "0.0.0.0:0";

/// Whether `c` is white space as Unicode defines it (the property
/// `White_Space`).
pub open spec fn is_white_space(c: char) -> bool {
    let n = c as u32;
    ||| 0x09 <= n <= 0x0D
    ||| n == 0x20
    ||| n == 0x85
    ||| n == 0xA0
    ||| n == 0x1680
    ||| 0x2000 <= n <= 0x200A
    ||| n == 0x2028
    ||| n == 0x2029
    ||| n == 0x202F
    ||| n == 0x205F
    ||| n == 0x3000
}

/// `text` without the white space it starts with.
pub open spec fn trim_start(text: Seq<char>) -> Seq<char>
    decreases text.len(),
{
    if text.len() > 0 && is_white_space(text[0]) {
        trim_start(text.drop_first())
    } else {
        text
    }
}

/// `text` without the white space it ends with.
pub open spec fn trim_end(text: Seq<char>) -> Seq<char>
    decreases text.len(),
{
    if text.len() > 0 && is_white_space(text.last()) {
        trim_end(text.drop_last())
    } else {
        text
    }
}

/// `text` without the white space around it.
pub open spec fn trim(text: Seq<char>) -> Seq<char> {
    trim_end(trim_start(text))
}

/// `text` without the slashes it starts with.
pub open spec fn trim_slashes(text: Seq<char>) -> Seq<char>
    decreases text.len(),
{
    if text.len() > 0 && text[0] == '/' {
        trim_slashes(text.drop_first())
    } else {
        text
    }
}

/// The decimal digit for `d`, which is less than ten.
pub open spec fn digit(d: nat) -> char {
    if d == 0 {
        '0'
    } else if d == 1 {
        '1'
    } else if d == 2 {
        '2'
    } else if d == 3 {
        '3'
    } else if d == 4 {
        '4'
    } else if d == 5 {
        '5'
    } else if d == 6 {
        '6'
    } else if d == 7 {
        '7'
    } else if d == 8 {
        '8'
    } else {
        '9'
    }
}

/// `n` in decimal digits, without leading zeros.
pub open spec fn decimal(n: nat) -> Seq<char>
    decreases n,
{
    if n < 10 {
        seq![digit(n)]
    } else {
        decimal(n / 10).push(digit(n % 10))
    }
}

/// The address of the service itself when it listens on `port`.
pub open spec fn base_url_of(port: u16) -> Seq<char> {
    "http://0.0.0.0:"@ + decimal(port as nat)
}

/// The address of `url_path` on a service that listens on `port`. A path
/// that starts with `http` is taken to be a whole address already; any other
/// is put behind the service's own address, without the white space around
/// it and with one slash in place of those it starts with.
pub open spec fn url_of(port: u16, url_path: Seq<char>) -> Seq<char> {
    if "http"@.is_prefix_of(url_path) {
        url_path
    } else {
        base_url_of(port) + "/"@ + trim_slashes(trim(url_path))
    }
}

/// Whether `c` is white space.
fn is_space(c: char) -> (white: bool)
    ensures
        white == is_white_space(c),
{
    let n: u32 = c as u32;
    (0x09 <= n && n <= 0x0D) || n == 0x20 || n == 0x85 || n == 0xA0 || n == 0x1680 || (0x2000 <= n
        && n <= 0x200A) || n == 0x2028 || n == 0x2029 || n == 0x202F || n == 0x205F || n == 0x3000
}

/// The characters of `text`, one by one.
fn chars_of(text: &str) -> (chars: Vec<char>)
    ensures
        chars@ == text@,
{
    let mut chars: Vec<char> = Vec::new();
    for c in it: text.chars()
        invariant
            chars@ == it.seq().take(it.index()),
            it.seq() == text@,
    {
        chars.push(c);
    }
    chars
}

/// The one digit of `d`.
fn digit_text(d: u16) -> (text: &'static str)
    requires
        d < 10,
    ensures
        text@ == seq![digit(d as nat)],
{
    proof {
        reveal_strlit("0");
        reveal_strlit("1");
        reveal_strlit("2");
        reveal_strlit("3");
        reveal_strlit("4");
        reveal_strlit("5");
        reveal_strlit("6");
        reveal_strlit("7");
        reveal_strlit("8");
        reveal_strlit("9");
    }
    let text = if d == 0 {
        "0"
    } else if d == 1 {
        "1"
    } else if d == 2 {
        "2"
    } else if d == 3 {
        "3"
    } else if d == 4 {
        "4"
    } else if d == 5 {
        "5"
    } else if d == 6 {
        "6"
    } else if d == 7 {
        "7"
    } else if d == 8 {
        "8"
    } else {
        "9"
    };
    assert(text@ =~= seq![digit(d as nat)]);
    text
}

/// `n` in decimal digits.
fn decimal_text(n: u16) -> (text: String)
    ensures
        text@ == decimal(n as nat),
    decreases n,
{
    if n < 10 {
        digit_text(n).to_owned()
    } else {
        let mut text = decimal_text(n / 10);
        text.append(digit_text(n % 10));
        text
    }
}

/// Leading white space is that of the rest once one white character is
/// passed; and where the text starts with none, nothing is taken off.
proof fn lemma_trim_start_skips(text: Seq<char>, k: int)
    requires
        0 <= k <= text.len(),
        forall|i: int| 0 <= i < k ==> is_white_space(#[trigger] text[i]),
    ensures
        trim_start(text) == trim_start(text.skip(k)),
    decreases k,
{
    if k > 0 {
        assert(text.drop_first().skip(k - 1) =~= text.skip(k));
        assert forall|i: int| 0 <= i < k - 1 implies is_white_space(
            #[trigger] text.drop_first()[i],
        ) by {
            assert(text.drop_first()[i] == text[i + 1]);
        }
        lemma_trim_start_skips(text.drop_first(), k - 1);
    } else {
        assert(text.skip(0) =~= text);
    }
}

/// Trailing white space can be taken off in one go.
proof fn lemma_trim_end_takes(text: Seq<char>, k: int)
    requires
        0 <= k <= text.len(),
        forall|i: int| k <= i < text.len() ==> is_white_space(#[trigger] text[i]),
    ensures
        trim_end(text) == trim_end(text.take(k)),
    decreases text.len() - k,
{
    if k < text.len() {
        assert(text.drop_last().take(k) =~= text.take(k));
        assert forall|i: int| k <= i < text.drop_last().len() implies is_white_space(
            #[trigger] text.drop_last()[i],
        ) by {
            assert(text.drop_last()[i] == text[i]);
        }
        assert(is_white_space(text[text.len() - 1]));
        lemma_trim_end_takes(text.drop_last(), k);
    } else {
        assert(text.take(k) =~= text);
    }
}

/// Leading slashes can be taken off in one go.
proof fn lemma_trim_slashes_skips(text: Seq<char>, k: int)
    requires
        0 <= k <= text.len(),
        forall|i: int| 0 <= i < k ==> #[trigger] text[i] == '/',
    ensures
        trim_slashes(text) == trim_slashes(text.skip(k)),
    decreases k,
{
    if k > 0 {
        assert(text.drop_first().skip(k - 1) =~= text.skip(k));
        assert forall|i: int| 0 <= i < k - 1 implies #[trigger] text.drop_first()[i] == '/' by {
            assert(text.drop_first()[i] == text[i + 1]);
        }
        lemma_trim_slashes_skips(text.drop_first(), k - 1);
    } else {
        assert(text.skip(0) =~= text);
    }
}

/// Whether `chars` starts with `http`.
fn starts_with_http(chars: &Vec<char>) -> (whole: bool)
    ensures
        whole == "http"@.is_prefix_of(chars@),
{
    proof {
        reveal_strlit("http");
    }
    let whole = chars.len() >= 4 && chars[0] == 'h' && chars[1] == 't' && chars[2] == 't'
        && chars[3] == 'p';
    proof {
        let http = "http"@;
        if whole {
            assert(chars@.subrange(0, http.len() as int) =~= http);
        } else if chars.len() >= 4 {
            if http.is_prefix_of(chars@) {
                assert(chars@.subrange(0, 4)[0] == http[0]);
                assert(chars@.subrange(0, 4)[1] == http[1]);
                assert(chars@.subrange(0, 4)[2] == http[2]);
                assert(chars@.subrange(0, 4)[3] == http[3]);
            }
        }
    }
    whole
}

/// A service that listens on a known port.
#[derive(Clone, Copy, Debug, PartialEq, Eq, Structural)]
pub struct Server {
    port: u16,
}

impl Server {
    pub closed spec fn spec_port(self) -> u16 {
        self.port
    }

    /// The service that listens on `port`.
    pub fn on_port(port: u16) -> (server: Server)
        ensures
            server.port() == port,
    {
        Server { port }
    }

    /// The port the service listens on.
    #[verifier::when_used_as_spec(spec_port)]
    pub fn port(self) -> (port: u16)
        ensures
            port == self.spec_port(),
    {
        self.port
    }

    /// The address of the service itself.
    pub fn base_url(&self) -> (url: String)
        ensures
            url@ == base_url_of(self.port()),
    {
        let mut url = "http://0.0.0.0:".to_owned();
        let port = decimal_text(self.port);
        url.append(port.as_str());
        url
    }

    /// The address of `url_path` on this service.
    pub fn url(&self, url_path: &str) -> (url: String)
        ensures
            url@ == url_of(self.port(), url_path@),
    {
        let chars = chars_of(url_path);
        if starts_with_http(&chars) {
            return url_path.to_owned();
        }
        let ghost text = url_path@;
        let mut start: usize = 0;
        while start < chars.len() && is_space(chars[start])
            invariant
                chars@ == text,
                start <= text.len(),
                forall|i: int| 0 <= i < start ==> is_white_space(#[trigger] text[i]),
            decreases text.len() - start,
        {
            start += 1;
        }
        proof {
            lemma_trim_start_skips(text, start as int);
        }
        let ghost lead = start;
        let ghost front = text.skip(lead as int);
        assert(trim_start(text) == front);
        let mut end: usize = chars.len();
        while end > start && is_space(chars[end - 1])
            invariant
                chars@ == text,
                start <= end <= text.len(),
                forall|i: int| end <= i < text.len() ==> is_white_space(#[trigger] text[i]),
            decreases end - start,
        {
            end -= 1;
        }
        proof {
            assert forall|i: int| end - lead <= i < front.len() implies is_white_space(
                #[trigger] front[i],
            ) by {
                assert(front[i] == text[i + lead]);
            }
            lemma_trim_end_takes(front, end - lead);
            assert(front.take(end - lead) =~= text.subrange(lead as int, end as int));
            let inner = text.subrange(lead as int, end as int);
            if inner.len() > 0 {
                assert(inner.last() == text[end - 1]);
            }
        }
        let ghost inner = text.subrange(lead as int, end as int);
        assert(trim(text) == inner);
        while start < end && chars[start] == '/'
            invariant
                chars@ == text,
                lead <= start <= end <= text.len(),
                forall|i: int| lead <= i < start ==> #[trigger] text[i] == '/',
            decreases end - start,
        {
            start += 1;
        }
        proof {
            assert forall|i: int| 0 <= i < start - lead implies #[trigger] inner[i] == '/' by {
                assert(inner[i] == text[i + lead]);
            }
            lemma_trim_slashes_skips(inner, start - lead);
            assert(inner.skip(start - lead) =~= text.subrange(start as int, end as int));
            let rest = text.subrange(start as int, end as int);
            if rest.len() > 0 {
                assert(rest[0] == text[start as int]);
            }
        }
        let path = url_path.substring_char(start, end);
        let mut url = self.base_url();
        url.append("/");
        url.append(path);
        url
    }
}

} // verus!
