use vstd::prelude::*;
use crate::topic::{PublishProperties, SubscriptionOptions};
use crate::types::{Type, wire_name};

verus! {

/// A lowercase hexadecimal digit.
pub open spec fn hex_digit(d: u32) -> char {
    if d < 10 { (('0' as u32) + d) as char } else { (('a' as u32) + d - 10) as char }
}

/// How one character appears inside a JSON string: `"` and `\` escaped with a
/// backslash, the five control characters with short escapes (`\b \t \n \f \r`),
/// other characters below U+0020 as `\u00XX`, everything else as it is.
pub open spec fn escape_char(c: char) -> Seq<char> {
    if c == '"' {
        seq!['\\', '"']
    } else if c == '\\' {
        seq!['\\', '\\']
    } else if c == '\u{8}' {
        seq!['\\', 'b']
    } else if c == '\t' {
        seq!['\\', 't']
    } else if c == '\n' {
        seq!['\\', 'n']
    } else if c == '\u{c}' {
        seq!['\\', 'f']
    } else if c == '\r' {
        seq!['\\', 'r']
    } else if (c as u32) < 0x20 {
        seq!['\\', 'u', '0', '0', hex_digit((c as u32) / 16), hex_digit((c as u32) % 16)]
    } else {
        seq![c]
    }
}

/// The characters of a text, each escaped as inside a JSON string.
pub open spec fn escaped(s: Seq<char>) -> Seq<char>
    decreases s.len(),
{
    if s.len() == 0 {
        Seq::empty()
    } else {
        escape_char(s[0]) + escaped(s.drop_first())
    }
}

/// The value of a lowercase hexadecimal digit.
pub open spec fn hex_value(c: char) -> u32 {
    if '0' <= c && c <= '9' { ((c as u32) - ('0' as u32)) as u32 } else { ((c as u32) - ('a' as u32) + 10) as u32 }
}

/// Reads back the contents of a JSON string as written by `escaped`.
pub open spec fn unescaped(t: Seq<char>) -> Seq<char>
    decreases t.len(),
{
    if t.len() == 0 {
        Seq::empty()
    } else if t[0] != '\\' || t.len() < 2 {
        seq![t[0]] + unescaped(t.drop_first())
    } else if t[1] == 'u' && t.len() >= 6 {
        seq![((hex_value(t[4]) * 16 + hex_value(t[5])) as u32) as char] + unescaped(t.subrange(6, t.len() as int))
    } else {
        let c = if t[1] == 'b' { '\u{8}' } else if t[1] == 't' { '\t' } else if t[1] == 'n' { '\n' }
            else if t[1] == 'f' { '\u{c}' } else if t[1] == 'r' { '\r' } else { t[1] };
        seq![c] + unescaped(t.subrange(2, t.len() as int))
    }
}

/// Reading back an escaped text gives the text: a name survives a JSON string.
pub proof fn lemma_string_round_trip(s: Seq<char>)
    ensures
        unescaped(escaped(s)) == s,
    decreases s.len(),
{
    if s.len() > 0 {
        lemma_string_round_trip(s.drop_first());
        let c = s[0];
        let e = escape_char(c);
        let rest = escaped(s.drop_first());
        let t = e + rest;
        assert(escaped(s) == t);
        if e.len() == 1 {
            assert(t.drop_first() =~= rest);
        } else if e.len() == 2 {
            assert(t.subrange(2, t.len() as int) =~= rest);
        } else {
            let v = c as u32;
            assert(v < 0x20);
            assert(t.subrange(6, t.len() as int) =~= rest);
            assert(hex_value(hex_digit(v / 16)) == v / 16);
            assert(hex_value(hex_digit(v % 16)) == v % 16);
            assert((v / 16) * 16 + v % 16 == v);
            vstd::utf8::char_u32_cast(c, v);
            assert((((v / 16) * 16 + v % 16) as u32) as char == c);
        }
        assert(s =~= seq![c] + s.drop_first());
    }
}

/// The JSON string literal for a text: the escaped characters between quotes.
pub open spec fn json_string(s: Seq<char>) -> Seq<char> {
    seq!['"'] + escaped(s) + seq!['"']
}

/// Relies on serde_json::to_string on a `str`: it writes a quote, each
/// character escaped by serde_json's table (`"`, `\` and characters below
/// U+0020; lowercase hex digits), and a quote, into a `Vec`, which cannot fail.
#[verifier::external_body]
fn quote(s: &str) -> (r: String)
    ensures
        r@ == json_string(s@),
{
    match serde_json::to_string(s) {
        Ok(t) => t,
        Err(_) => String::new(),
    }
}

/// The character of a decimal digit.
pub open spec fn digit_char(d: nat) -> char {
    if d == 0 { '0' } else if d == 1 { '1' } else if d == 2 { '2' } else if d == 3 { '3' } else if d == 4 { '4' }
    else if d == 5 { '5' } else if d == 6 { '6' } else if d == 7 { '7' } else if d == 8 { '8' } else { '9' }
}

/// The decimal digits of a natural number, most significant first, without leading zeros.
pub open spec fn decimal(n: nat) -> Seq<char>
    decreases n,
{
    if n < 10 {
        seq![digit_char(n)]
    } else {
        decimal(n / 10).push(digit_char(n % 10))
    }
}

/// A JSON integer.
pub open spec fn int_text(n: int) -> Seq<char> {
    if n < 0 {
        seq!['-'] + decimal((-n) as nat)
    } else {
        decimal(n as nat)
    }
}

/// A JSON boolean.
pub open spec fn bool_text(b: bool) -> Seq<char> {
    if b { "true"@ } else { "false"@ }
}

/// Items separated by commas.
pub open spec fn join(items: Seq<Seq<char>>) -> Seq<char>
    decreases items.len(),
{
    if items.len() == 0 {
        Seq::empty()
    } else if items.len() == 1 {
        items[0]
    } else {
        join(items.drop_last()) + seq![','] + items.last()
    }
}

/// A JSON array of the given element texts.
pub open spec fn array_text(items: Seq<Seq<char>>) -> Seq<char> {
    seq!['['] + join(items) + seq![']']
}

/// A JSON object of the given member texts.
pub open spec fn object_text(items: Seq<Seq<char>>) -> Seq<char> {
    seq!['{'] + join(items) + seq!['}']
}

/// One member `"key":value`.
pub open spec fn member(key: Seq<char>, value: Seq<char>) -> Seq<char> {
    json_string(key) + seq![':'] + value
}

/// Members for the optional booleans that are set.
pub open spec fn opt_bool_member(key: Seq<char>, b: Option<bool>) -> Seq<Seq<char>> {
    match b {
        Some(v) => seq![member(key, bool_text(v))],
        None => Seq::empty(),
    }
}

/// The member for one further property: its key and the JSON text of its value.
pub open spec fn rest_member(kv: (String, String)) -> Seq<char> {
    member(kv.0@, kv.1@)
}

/// The members of a property bag: the set flags, then the further properties.
pub open spec fn properties_members(p: PublishProperties) -> Seq<Seq<char>> {
    opt_bool_member("persistent"@, p.persistent) + opt_bool_member("retained"@, p.retained) + match p.rest {
        Some(v) => v@.map_values(|kv: (String, String)| rest_member(kv)),
        None => Seq::empty(),
    }
}

/// A property bag as a JSON object.
pub open spec fn properties_text(p: PublishProperties) -> Seq<char> {
    object_text(properties_members(p))
}

/// An optional property bag; an absent one is the empty object.
pub open spec fn opt_properties_text(p: Option<PublishProperties>) -> Seq<char> {
    match p {
        Some(q) => properties_text(q),
        None => "{}"@,
    }
}

/// A period in milliseconds written as seconds with three decimals.
pub open spec fn seconds_text(ms: u32) -> Seq<char> {
    decimal((ms / 1000) as nat) + seq!['.', digit_char(((ms % 1000) / 100) as nat), digit_char(((ms % 100) / 10) as nat), digit_char((ms % 10) as nat)]
}

/// The members of subscription options that are set.
pub open spec fn options_members(o: SubscriptionOptions) -> Seq<Seq<char>> {
    (match o.periodic_ms {
        Some(ms) => seq![member("periodic"@, seconds_text(ms))],
        None => Seq::empty(),
    }) + opt_bool_member("all"@, o.all) + opt_bool_member("topicsonly"@, o.topicsonly) + opt_bool_member("prefix"@, o.prefix)
}

/// Optional subscription options as a JSON object; absent ones are the empty object.
pub open spec fn opt_options_text(o: Option<SubscriptionOptions>) -> Seq<char> {
    match o {
        Some(q) => object_text(options_members(q)),
        None => "{}"@,
    }
}

/// A control message with its method and the members of its parameters.
pub open spec fn message_text(method: Seq<char>, params: Seq<Seq<char>>) -> Seq<char> {
    object_text(seq![member("method"@, json_string(method)), member("params"@, object_text(params))])
}

/// The `publish` message.
pub open spec fn publish_text(name: Seq<char>, pubuid: u32, t: Type, p: Option<PublishProperties>) -> Seq<char> {
    message_text("publish"@, seq![
        member("name"@, json_string(name)),
        member("pubuid"@, int_text(pubuid as int)),
        member("type"@, json_string(wire_name(t))),
        member("properties"@, opt_properties_text(p)),
    ])
}

/// The `setproperties` message.
pub open spec fn setproperties_text(name: Seq<char>, p: PublishProperties) -> Seq<char> {
    message_text("setproperties"@, seq![member("name"@, json_string(name)), member("update"@, properties_text(p))])
}

/// The `unpublish` message.
pub open spec fn unpublish_text(pubuid: u32) -> Seq<char> {
    message_text("unpublish"@, seq![member("pubuid"@, int_text(pubuid as int))])
}

/// The `subscribe` message.
pub open spec fn subscribe_text(subuid: i32, topics: Seq<String>, o: Option<SubscriptionOptions>) -> Seq<char> {
    message_text("subscribe"@, seq![
        member("subuid"@, int_text(subuid as int)),
        member("topics"@, array_text(topics.map_values(|t: String| json_string(t@)))),
        member("options"@, opt_options_text(o)),
    ])
}

/// The `unsubscribe` message.
pub open spec fn unsubscribe_text(subuid: i32) -> Seq<char> {
    message_text("unsubscribe"@, seq![member("subuid"@, int_text(subuid as int))])
}

/// The views of a vector of strings.
pub open spec fn views(v: Seq<String>) -> Seq<Seq<char>> {
    v.map_values(|s: String| s@)
}

fn digit_str(d: u64) -> (r: &'static str)
    requires
        d < 10,
    ensures
        r@ == seq![digit_char(d as nat)],
{
    proof {
        reveal_strlit("0");
        reveal_strlit("1");
        reveal_strlit("2");
        reveal_strlit("3");
        reveal_strlit("4");
        reveal_strlit("5");
        reveal_strlit("6");
        reveal_strlit("7");
        reveal_strlit("8");
        reveal_strlit("9");
    }
    if d == 0 { "0" } else if d == 1 { "1" } else if d == 2 { "2" } else if d == 3 { "3" } else if d == 4 { "4" }
    else if d == 5 { "5" } else if d == 6 { "6" } else if d == 7 { "7" } else if d == 8 { "8" } else { "9" }
}

/// Appends the decimal digits of `n`.
pub fn push_decimal(out: &mut String, n: u64)
    ensures
        final(out)@ == old(out)@ + decimal(n as nat),
    decreases n,
{
    if n >= 10 {
        push_decimal(out, n / 10);
    }
    out.append(digit_str(n % 10));
    proof {
        assert(final(out)@ =~= old(out)@ + decimal(n as nat));
    }
}

/// Appends a JSON integer.
pub fn push_int(out: &mut String, n: i64)
    ensures
        final(out)@ == old(out)@ + int_text(n as int),
{
    if n < 0 {
        proof {
            reveal_strlit("-");
        }
        out.append("-");
        let m: u64 = if n == i64::MIN { 0x8000_0000_0000_0000u64 } else { (-n) as u64 };
        push_decimal(out, m);
        proof {
            assert(final(out)@ =~= old(out)@ + int_text(n as int));
        }
    } else {
        push_decimal(out, n as u64);
    }
}

/// Joins texts with commas.
pub fn join_texts(items: &Vec<String>) -> (r: String)
    ensures
        r@ == join(views(items@)),
{
    let mut out = String::new();
    let mut i: usize = 0;
    proof {
        reveal_strlit(",");
        assert(views(items@).subrange(0, 0) =~= Seq::<Seq<char>>::empty());
    }
    while i < items.len()
        invariant
            i <= items@.len(),
            out@ == join(views(items@).subrange(0, i as int)),
        decreases items@.len() - i,
    {
        let ghost prev = views(items@).subrange(0, i as int);
        let ghost next = views(items@).subrange(0, i + 1);
        let ghost before = out@;
        proof {
            reveal_strlit(",");
            assert(next.drop_last() =~= prev);
        }
        if i > 0 {
            out.append(",");
        }
        let ghost mid = out@;
        out.append(items[i].as_str());
        proof {
            assert(out@ == mid + items@[i as int]@);
            if i == 0 {
                assert(mid == before);
            } else {
                assert(mid == before + seq![',']);
            }
        }
        i = i + 1;
        proof {
            assert(next.last() == items@[i - 1]@);
            if i == 1 {
                assert(next.len() == 1);
                assert(prev.len() == 0);
                assert(before == Seq::<char>::empty());
                assert(join(next) == next[0]);
                assert(out@ =~= join(next));
            } else {
                assert(join(next) == join(prev) + seq![','] + next.last());
                assert(out@ =~= join(next));
            }
        }
    }
    proof {
        assert(views(items@).subrange(0, items@.len() as int) =~= views(items@));
    }
    out
}


fn enclose(open: &str, items: &Vec<String>, close: &str) -> (r: String)
    ensures
        r@ == open@ + join(views(items@)) + close@,
{
    let mut out = String::new();
    out.append(open);
    let inner = join_texts(items);
    out.append(inner.as_str());
    out.append(close);
    proof {
        assert(out@ =~= open@ + join(views(items@)) + close@);
    }
    out
}

/// A JSON object from member texts.
pub fn object(items: &Vec<String>) -> (r: String)
    ensures
        r@ == object_text(views(items@)),
{
    proof {
        reveal_strlit("{");
        reveal_strlit("}");
    }
    let r = enclose("{", items, "}");
    proof {
        assert(r@ =~= object_text(views(items@)));
    }
    r
}

/// A JSON array from element texts.
pub fn array(items: &Vec<String>) -> (r: String)
    ensures
        r@ == array_text(views(items@)),
{
    proof {
        reveal_strlit("[");
        reveal_strlit("]");
    }
    let r = enclose("[", items, "]");
    proof {
        assert(r@ =~= array_text(views(items@)));
    }
    r
}

/// One member `"key":value`, with `value` already JSON text.
pub fn member_of(key: &str, value: &str) -> (r: String)
    ensures
        r@ == member(key@, value@),
{
    proof {
        reveal_strlit(":");
    }
    let mut out = quote(key);
    out.append(":");
    out.append(value);
    proof {
        assert(out@ =~= member(key@, value@));
    }
    out
}

fn bool_str(b: bool) -> (r: &'static str)
    ensures
        r@ == bool_text(b),
{
    if b { "true" } else { "false" }
}

fn int_string(n: i64) -> (r: String)
    ensures
        r@ == int_text(n as int),
{
    let mut out = String::new();
    push_int(&mut out, n);
    proof {
        assert(out@ =~= int_text(n as int));
    }
    out
}

fn push_opt_bool(items: &mut Vec<String>, key: &str, b: Option<bool>)
    ensures
        views(final(items)@) == views(old(items)@) + opt_bool_member(key@, b),
{
    match b {
        Some(v) => {
            items.push(member_of(key, bool_str(v)));
        },
        None => {},
    }
    proof {
        assert(views(final(items)@) =~= views(old(items)@) + opt_bool_member(key@, b));
    }
}

/// A property bag as a JSON object.
pub fn properties_json(p: &PublishProperties) -> (r: String)
    ensures
        r@ == properties_text(*p),
{
    let mut items: Vec<String> = Vec::new();
    push_opt_bool(&mut items, "persistent", p.persistent);
    push_opt_bool(&mut items, "retained", p.retained);
    match &p.rest {
        Some(rest) => {
            let ghost head = views(items@);
            let mut i: usize = 0;
            proof {
                assert(head =~= head + rest@.subrange(0, 0).map_values(|kv: (String, String)| rest_member(kv)));
            }
            while i < rest.len()
                invariant
                    i <= rest@.len(),
                    views(items@) == head + rest@.subrange(0, i as int).map_values(|kv: (String, String)| rest_member(kv)),
                decreases rest@.len() - i,
            {
                let m = member_of(rest[i].0.as_str(), rest[i].1.as_str());
                let ghost before = items@;
                items.push(m);
                proof {
                    assert(m@ == rest_member(rest@[i as int]));
                    assert(views(items@) =~= views(before).push(m@));
                    assert(rest@.subrange(0, i + 1).map_values(|kv: (String, String)| rest_member(kv)) =~= rest@.subrange(0, i as int).map_values(|kv: (String, String)| rest_member(kv)).push(rest_member(rest@[i as int])));
                }
                i = i + 1;
                proof {
                    assert(views(items@) =~= head + rest@.subrange(0, i as int).map_values(|kv: (String, String)| rest_member(kv)));
                }
            }
            proof {
                assert(rest@.subrange(0, rest@.len() as int) =~= rest@);
            }
        },
        None => {},
    }
    proof {
        assert(views(items@) =~= properties_members(*p));
    }
    object(&items)
}

/// An optional property bag as JSON; an absent one is the empty object.
pub fn opt_properties_json(p: &Option<PublishProperties>) -> (r: String)
    ensures
        r@ == opt_properties_text(*p),
{
    match p {
        Some(q) => properties_json(q),
        None => String::from_str("{}"),
    }
}

fn seconds_string(ms: u32) -> (r: String)
    ensures
        r@ == seconds_text(ms),
{
    proof {
        reveal_strlit(".");
    }
    let mut out = String::new();
    push_decimal(&mut out, (ms / 1000) as u64);
    out.append(".");
    out.append(digit_str(((ms % 1000) / 100) as u64));
    out.append(digit_str(((ms % 100) / 10) as u64));
    out.append(digit_str((ms % 10) as u64));
    proof {
        assert(out@ =~= seconds_text(ms));
    }
    out
}

/// Subscription options as a JSON object; absent ones are the empty object.
pub fn opt_options_json(o: &Option<SubscriptionOptions>) -> (r: String)
    ensures
        r@ == opt_options_text(*o),
{
    match o {
        Some(q) => {
            let mut items: Vec<String> = Vec::new();
            match q.periodic_ms {
                Some(ms) => {
                    let t = seconds_string(ms);
                    items.push(member_of("periodic", t.as_str()));
                },
                None => {},
            }
            push_opt_bool(&mut items, "all", q.all);
            push_opt_bool(&mut items, "topicsonly", q.topicsonly);
            push_opt_bool(&mut items, "prefix", q.prefix);
            proof {
                assert(views(items@) =~= options_members(*q));
            }
            object(&items)
        },
        None => String::from_str("{}"),
    }
}

/// A control message with a method and the texts of its parameters' members.
pub fn message(method: &str, params: &Vec<String>) -> (r: String)
    ensures
        r@ == message_text(method@, views(params@)),
{
    let q = quote(method);
    let mut items: Vec<String> = Vec::new();
    items.push(member_of("method", q.as_str()));
    let p = object(params);
    items.push(member_of("params", p.as_str()));
    proof {
        assert(views(items@) =~= seq![member("method"@, json_string(method@)), member("params"@, object_text(views(params@)))]);
    }
    object(&items)
}

/// The `publish` message for a topic.
pub fn publish_message(name: &str, pubuid: u32, t: Type, p: &Option<PublishProperties>) -> (r: String)
    ensures
        r@ == publish_text(name@, pubuid, t, *p),
{
    let mut params: Vec<String> = Vec::new();
    let q = quote(name);
    params.push(member_of("name", q.as_str()));
    let n = int_string(pubuid as i64);
    params.push(member_of("pubuid", n.as_str()));
    let tq = quote(t.name());
    params.push(member_of("type", tq.as_str()));
    let pj = opt_properties_json(p);
    params.push(member_of("properties", pj.as_str()));
    proof {
        assert(views(params@) =~= seq![
            member("name"@, json_string(name@)),
            member("pubuid"@, int_text(pubuid as int)),
            member("type"@, json_string(wire_name(t))),
            member("properties"@, opt_properties_text(*p)),
        ]);
    }
    message("publish", &params)
}

/// The `setproperties` message for a topic's name and new properties.
pub fn setproperties_message(name: &str, p: &PublishProperties) -> (r: String)
    ensures
        r@ == setproperties_text(name@, *p),
{
    let mut params: Vec<String> = Vec::new();
    let q = quote(name);
    params.push(member_of("name", q.as_str()));
    let pj = properties_json(p);
    params.push(member_of("update", pj.as_str()));
    proof {
        assert(views(params@) =~= seq![member("name"@, json_string(name@)), member("update"@, properties_text(*p))]);
    }
    message("setproperties", &params)
}

/// The `unpublish` message.
pub fn unpublish_message(pubuid: u32) -> (r: String)
    ensures
        r@ == unpublish_text(pubuid),
{
    let mut params: Vec<String> = Vec::new();
    let n = int_string(pubuid as i64);
    params.push(member_of("pubuid", n.as_str()));
    proof {
        assert(views(params@) =~= seq![member("pubuid"@, int_text(pubuid as int))]);
    }
    message("unpublish", &params)
}

/// The `unsubscribe` message.
pub fn unsubscribe_message(subuid: i32) -> (r: String)
    ensures
        r@ == unsubscribe_text(subuid),
{
    let mut params: Vec<String> = Vec::new();
    let n = int_string(subuid as i64);
    params.push(member_of("subuid", n.as_str()));
    proof {
        assert(views(params@) =~= seq![member("subuid"@, int_text(subuid as int))]);
    }
    message("unsubscribe", &params)
}

/// The `subscribe` message.
pub fn subscribe_message(subuid: i32, topics: &Vec<String>, o: &Option<SubscriptionOptions>) -> (r: String)
    ensures
        r@ == subscribe_text(subuid, topics@, *o),
{
    let mut quoted: Vec<String> = Vec::new();
    let mut i: usize = 0;
    while i < topics.len()
        invariant
            i <= topics@.len(),
            views(quoted@) == topics@.subrange(0, i as int).map_values(|t: String| json_string(t@)),
        decreases topics@.len() - i,
    {
        let qt = quote(topics[i].as_str());
        let ghost before = quoted@;
        quoted.push(qt);
        proof {
            assert(views(quoted@) =~= views(before).push(qt@));
            assert(topics@.subrange(0, i + 1).map_values(|t: String| json_string(t@)) =~= topics@.subrange(0, i as int).map_values(|t: String| json_string(t@)).push(json_string(topics@[i as int]@)));
        }
        i = i + 1;
        proof {
            assert(views(quoted@) =~= topics@.subrange(0, i as int).map_values(|t: String| json_string(t@)));
        }
    }
    proof {
        assert(topics@.subrange(0, topics@.len() as int) =~= topics@);
    }
    let mut params: Vec<String> = Vec::new();
    let n = int_string(subuid as i64);
    params.push(member_of("subuid", n.as_str()));
    let a = array(&quoted);
    params.push(member_of("topics", a.as_str()));
    let oj = opt_options_json(o);
    params.push(member_of("options", oj.as_str()));
    proof {
        assert(views(params@) =~= seq![
            member("subuid"@, int_text(subuid as int)),
            member("topics"@, array_text(topics@.map_values(|t: String| json_string(t@)))),
            member("options"@, opt_options_text(*o)),
        ]);
    }
    message("subscribe", &params)
}

} // verus!
