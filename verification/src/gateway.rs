//! What the bot learns about the gateway: where it is, and the heartbeat
//! interval that its greeting announces.

use vstd::prelude::*;
use crate::text::{
    all_digits, byte_prefix, decimal_spec, is_boundary, is_digit, lemma_ascii_cut,
    lemma_decimal_digits, lemma_parse_decimal, lemma_replace_matched_head,
    lemma_replace_unmatched_head, parse_u128, parse_u128_spec, replace, replace_spec, replace_tail,
};
use vstd::utf8::is_ascii_chars;

verus! {

/// How many sessions the bot may still start, and when that count resets.
#[derive(Debug)]
pub struct SessionStartLimit {
    total: u32,
    remaining: u32,
    reset_after: u32,
    max_concurrency: u32,
}

impl SessionStartLimit {
    /// The limit as four numbers: total, remaining, reset after, and
    /// maximum concurrency.
    pub closed spec fn numbers(&self) -> (u32, u32, u32, u32) {
        (self.total, self.remaining, self.reset_after, self.max_concurrency)
    }

    /// A limit made of these numbers.
    pub fn new(total: u32, remaining: u32, reset_after: u32, max_concurrency: u32) -> (res: Self)
        ensures
            res.numbers() == (total, remaining, reset_after, max_concurrency),
    {
        SessionStartLimit { total, remaining, reset_after, max_concurrency }
    }

    /// The four numbers of the limit.
    pub fn parts(&self) -> (res: (u32, u32, u32, u32))
        ensures
            res == self.numbers(),
    {
        (self.total, self.remaining, self.reset_after, self.max_concurrency)
    }
}

/// Where the gateway is, how many shards to use, and the session limit.
#[derive(Debug)]
pub struct GatewayInfos {
    url: String,
    shards: u8,
    session_start_limit: SessionStartLimit,
}

impl GatewayInfos {
    /// The address of the gateway.
    pub closed spec fn url_view(&self) -> Seq<char> {
        self.url@
    }

    /// The number of shards to use.
    pub closed spec fn shards_view(&self) -> u8 {
        self.shards
    }

    /// The session start limit.
    pub closed spec fn limit_view(&self) -> (u32, u32, u32, u32) {
        self.session_start_limit.numbers()
    }

    /// The gateway information made of these parts.
    pub fn new(url: String, shards: u8, session_start_limit: SessionStartLimit) -> (res: Self)
        ensures
            res.url_view() == url@,
            res.shards_view() == shards,
            res.limit_view() == session_start_limit.numbers(),
    {
        GatewayInfos { url, shards, session_start_limit }
    }

    /// The number of shards to use.
    pub fn get_shards(&self) -> (res: u8)
        ensures
            res == self.shards_view(),
    {
        self.shards
    }

    /// The session start limit.
    pub fn get_session_start_limit(&self) -> (res: &SessionStartLimit)
        ensures
            res.numbers() == self.limit_view(),
    {
        &self.session_start_limit
    }

    /// The address of the gateway.
    pub fn get_url(&self) -> (res: &str)
        ensures
            res@ == self.url_view(),
    {
        self.url.as_str()
    }
}

/// The greeting with its empty sequence number and event name taken out.
pub open spec fn hello_stage_spec(hello: Seq<char>) -> Seq<char> {
    replace_spec(hello, "\"t\":null,\"s\":null,"@, ""@)
}

/// Whether the greeting can be cut after its fortieth byte, where the
/// interval ends in the greeting Discord sends.
pub open spec fn hello_cut_ok(hello: Seq<char>) -> bool {
    is_boundary(hello_stage_spec(hello), 40)
}

/// The text of the heartbeat interval in the greeting: the greeting cut
/// after its fortieth byte and closed, with its frame taken out.
pub open spec fn hello_interval_text_spec(hello: Seq<char>) -> Seq<char> {
    let cut = byte_prefix(hello_stage_spec(hello), 40) + "}}"@;
    replace_spec(replace_spec(cut, "{\"op\":10,\"d\":{\"heartbeat_interval\":"@, ""@), "}}"@, ""@)
}

/// The heartbeat interval that the greeting announces, in milliseconds.
pub open spec fn heartbeat_interval_spec(hello: Seq<char>) -> Option<u128> {
    if hello_cut_ok(hello) {
        parse_u128_spec(hello_interval_text_spec(hello))
    } else {
        None
    }
}

/// The greeting with its empty sequence number and event name taken out.
fn hello_stage(hello: &str) -> (res: String)
    ensures
        res@ == hello_stage_spec(hello@),
{
    replace(hello, "\"t\":null,\"s\":null,", "")
}

/// The text of the heartbeat interval in the greeting.
pub fn hello_interval_text(hello: &str) -> (res: String)
    requires
        hello_cut_ok(hello@),
    ensures
        res@ == hello_interval_text_spec(hello@),
{
    let stage = hello_stage(hello);
    let cut = replace_tail(stage.as_str(), 40, "}}");
    let framed = replace(cut.as_str(), "{\"op\":10,\"d\":{\"heartbeat_interval\":", "");
    replace(framed.as_str(), "}}", "")
}

/// The heartbeat interval that the greeting announces, in milliseconds;
/// `None` where the greeting cannot be cut after its fortieth byte or what
/// is left is no number.
pub fn heartbeat_interval(hello: &str) -> (res: Option<u128>)
    ensures
        res == heartbeat_interval_spec(hello@),
{
    let stage = hello_stage(hello);
    if !stage.as_str().is_char_boundary(40) {
        return None;
    }
    let text = hello_interval_text(hello);
    parse_u128(text.as_str())
}

/// The greeting the gateway sends: an empty event name and sequence
/// number, the opcode, the heartbeat interval in milliseconds, and whatever
/// else follows.
pub open spec fn greeting_spec(interval: nat, rest: Seq<char>) -> Seq<char> {
    "{"@ + "\"t\":null,\"s\":null,"@ + "\"op\":10,\"d\":{\"heartbeat_interval\":"@ + decimal_spec(interval) + rest
}

/// The frame of the greeting is an opening brace and the opcode and
/// interval key.
proof fn lemma_frame_split()
    ensures
        "{\"op\":10,\"d\":{\"heartbeat_interval\":"@ == "{"@ + "\"op\":10,\"d\":{\"heartbeat_interval\":"@,
{
    reveal_strlit("{\"op\":10,\"d\":{\"heartbeat_interval\":");
    reveal_strlit("\"op\":10,\"d\":{\"heartbeat_interval\":");
    reveal_strlit("{");
    assert("{\"op\":10,\"d\":{\"heartbeat_interval\":"@ =~= "{"@ + "\"op\":10,\"d\":{\"heartbeat_interval\":"@);
}

/// No empty event name and sequence number starts inside the frame and the
/// five digits of the interval, whatever follows them.
proof fn lemma_no_event_in_frame(d: Seq<char>, rest: Seq<char>)
    requires
        d.len() == 5,
        all_digits(d),
    ensures
        forall|i: int|
            0 <= i < 39 ==> !"\"t\":null,\"s\":null,"@.is_prefix_of(
                #[trigger] (("\"op\":10,\"d\":{\"heartbeat_interval\":"@ + d) + rest).skip(i),
            ),
{
    reveal_strlit("\"t\":null,\"s\":null,");
    reveal_strlit("\"op\":10,\"d\":{\"heartbeat_interval\":");
    let t = "\"t\":null,\"s\":null,"@;
    let p1 = "\"op\":10,\"d\":{\"heartbeat_interval\":"@;
    let s = (p1 + d) + rest;
    assert(p1.len() == 34);
    assert forall|i: int| 0 <= i < 39 implies !t.is_prefix_of(#[trigger] s.skip(i)) by {
        if t.is_prefix_of(s.skip(i)) {
            assert(s.skip(i)[0] == t[0]);
            assert(s.skip(i)[1] == t[1]);
            assert(s[i] == '"');
            assert(s[i + 1] == 't');
            if i >= 34 {
                assert(s[i] == d[i - 34]);
                assert(is_digit(d[i - 34]));
            } else {
                assert(s[i] == p1[i]);
                assert(s[i + 1] != 't');
            }
        }
    }
}

/// Taking the empty event name and sequence number out of the greeting
/// leaves the frame and the interval, then whatever follows, with its own
/// occurrences taken out.
proof fn lemma_greeting_stage(interval: nat, rest: Seq<char>)
    requires
        decimal_spec(interval).len() == 5,
        all_digits(decimal_spec(interval)),
    ensures
        hello_stage_spec(greeting_spec(interval, rest)) == "{\"op\":10,\"d\":{\"heartbeat_interval\":"@ + decimal_spec(interval)
            + replace_spec(rest, "\"t\":null,\"s\":null,"@, ""@),
{
    lemma_literal_facts();
    let t = "\"t\":null,\"s\":null,"@;
    let p1 = "\"op\":10,\"d\":{\"heartbeat_interval\":"@;
    let none = ""@;
    let d = decimal_spec(interval);
    let brace = "{"@;
    let tail = (p1 + d) + rest;
    let g = greeting_spec(interval, rest);
    assert(g =~= brace + (t + tail));
    assert(!t.is_prefix_of((brace + (t + tail)).skip(0))) by {
        let s = (brace + (t + tail)).skip(0);
        assert(s[0] == '{');
        if t.is_prefix_of(s) {
            assert(t[0] == s.subrange(0, t.len() as int)[0]);
        }
    }
    lemma_replace_unmatched_head(brace, t + tail, t, none);
    lemma_replace_matched_head(tail, t, none);
    lemma_no_event_in_frame(d, rest);
    lemma_replace_unmatched_head(p1 + d, rest, t, none);
    lemma_frame_split();
    let r = replace_spec(rest, t, none);
    assert(none + ((p1 + d) + r) =~= (p1 + d) + r);
    assert(brace + ((p1 + d) + r) =~= (brace + p1) + d + r);
}

/// What the proofs about the greeting need to know of its short literals.
proof fn lemma_literal_facts()
    ensures
        "\"t\":null,\"s\":null,"@.len() == 18,
        "\"op\":10,\"d\":{\"heartbeat_interval\":"@.len() == 34,
        "\"t\":null,\"s\":null,"@[0] == '"',
        "{"@ == seq!['{'],
        ""@ == Seq::<char>::empty(),
{
    reveal_strlit("\"t\":null,\"s\":null,");
    reveal_strlit("\"op\":10,\"d\":{\"heartbeat_interval\":");
    reveal_strlit("{");
    reveal_strlit("");
    assert("{"@ =~= seq!['{']);
    assert(""@ =~= Seq::<char>::empty());
}

/// Taking the frame and the closing braces out of the cut greeting leaves
/// the digits of the interval.
proof fn lemma_frame_off(d: Seq<char>)
    requires
        d.len() == 5,
        all_digits(d),
    ensures
        replace_spec(
            replace_spec("{\"op\":10,\"d\":{\"heartbeat_interval\":"@ + d + "}}"@, "{\"op\":10,\"d\":{\"heartbeat_interval\":"@, ""@),
            "}}"@,
            ""@,
        ) == d,
{
    reveal_strlit("{\"op\":10,\"d\":{\"heartbeat_interval\":");
    reveal_strlit("}}");
    reveal_strlit("");
    let pp = "{\"op\":10,\"d\":{\"heartbeat_interval\":"@;
    let close = "}}"@;
    let none = ""@;
    assert(pp + d + close =~= pp + (d + close));
    lemma_replace_matched_head(d + close, pp, none);
    assert forall|i: int| 0 <= i < (d + close).len() implies !pp.is_prefix_of(#[trigger] ((d + close) + none).skip(i)) by {
        let s = (d + close) + none;
        if pp.is_prefix_of(s.skip(i)) {
            assert(s.skip(i)[0] == pp[0]);
            if i < 5 {
                assert(is_digit(d[i]));
            }
        }
    }
    lemma_replace_unmatched_head(d + close, none, pp, none);
    assert((d + close) + none =~= d + close);
    assert(none + (d + close) =~= d + close);
    assert forall|i: int| 0 <= i < d.len() implies !close.is_prefix_of(#[trigger] (d + close).skip(i)) by {
        let s = d + close;
        if close.is_prefix_of(s.skip(i)) {
            assert(s.skip(i)[0] == close[0]);
            assert(s[i] == d[i]);
            assert(is_digit(d[i]));
        }
    }
    lemma_replace_unmatched_head(d, close, close, none);
    lemma_replace_matched_head(none, close, none);
    assert(close + none =~= close);
    assert(d + (none + replace_spec(none, close, none)) =~= d);
}

/// The bot reads back the heartbeat interval that the gateway's greeting
/// announces, whatever follows it, wherever the interval has five digits.
pub proof fn lemma_greeting_interval(interval: nat, rest: Seq<char>)
    requires
        10000 <= interval <= 99999,
    ensures
        hello_cut_ok(greeting_spec(interval, rest)),
        heartbeat_interval_spec(greeting_spec(interval, rest)) == Some(interval as u128),
{
    reveal_strlit("{\"op\":10,\"d\":{\"heartbeat_interval\":");
    let pp = "{\"op\":10,\"d\":{\"heartbeat_interval\":"@;
    let d = decimal_spec(interval);
    lemma_decimal_digits(interval);
    assert(d.len() == 5) by {
        reveal_with_fuel(decimal_spec, 6);
    }
    lemma_greeting_stage(interval, rest);
    let r = replace_spec(rest, "\"t\":null,\"s\":null,"@, ""@);
    let x = pp + d;
    assert(pp.len() == 35);
    assert(is_ascii_chars(x)) by {
        assert forall|i: int| 0 <= i < x.len() implies '\0' <= #[trigger] x[i] <= '\u{7f}' by {
            if i >= 35 {
                assert(x[i] == d[i - 35]);
                assert(is_digit(d[i - 35]));
            } else {
                assert(x[i] == pp[i]);
            }
        }
    }
    lemma_ascii_cut(x, r);
    lemma_frame_off(d);
    lemma_parse_decimal(interval);
}

/// Whether a heartbeat is due: exactly when the time since the last one,
/// in milliseconds, equals the interval.
pub fn heartbeat_due(elapsed_ms: u128, interval_ms: u128) -> (res: bool)
    ensures
        res == (elapsed_ms == interval_ms),
{
    elapsed_ms == interval_ms
}

/// The heartbeat the bot sends through the gateway.
pub fn heartbeat_payload() -> (res: &'static str)
    ensures
        res@ == "{\"op\": 1,\"d\": null}"@,
{
    "{\"op\": 1,\"d\": null}"
}

/// The identification the bot sends through the gateway, up to its token.
pub open spec fn identify_head() -> Seq<char> {
    "\n        {\n            \"op\": 2,\n            \"d\": {\n              \"token\": \""@
}

/// The identification the bot sends through the gateway, after its token.
pub open spec fn identify_tail() -> Seq<char> {
    "\",\n              \"intents\": 513,\n              \"properties\": {\n                \"$os\": \"linux\",\n                \"$browser\": \"rust_lib\",\n                \"$device\": \"rust_lib\"\n              },\n              \"presence\": {\n                \"activities\": [{\n                  \"name\": \"League of Legends\",\n                  \"type\": 1\n                }],\n                \"status\": \"online\",\n                \"since\": 91879201,\n                \"afk\": false\n              }\n            }\n          }\n        "@
}

/// The identification the bot sends through the gateway, with its token,
/// laid out over several indented lines.
pub fn identify_payload(token: &str) -> (res: String)
    ensures
        res@ == identify_head() + token@ + identify_tail(),
{
    let mut res = "\n        {\n            \"op\": 2,\n            \"d\": {\n              \"token\": \"".to_owned();
    res.append(token);
    res.append("\",\n              \"intents\": 513,\n              \"properties\": {\n                \"$os\": \"linux\",\n                \"$browser\": \"rust_lib\",\n                \"$device\": \"rust_lib\"\n              },\n              \"presence\": {\n                \"activities\": [{\n                  \"name\": \"League of Legends\",\n                  \"type\": 1\n                }],\n                \"status\": \"online\",\n                \"since\": 91879201,\n                \"afk\": false\n              }\n            }\n          }\n        ");
    res
}

} // verus!
