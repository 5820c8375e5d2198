use vstd::prelude::*;
use crate::error::AgentError;
use crate::text::{decimal_of, decimal_string, views};

verus! {

#[verifier::external_type_specification]
#[verifier::external_body]
pub struct ExJsonValue(serde_json::Value);

#[verifier::external_type_specification]
#[verifier::external_body]
pub struct ExJsonError(serde_json::Error);

/// Whether serde_json accepts `text` as one JSON document.
pub uninterp spec fn is_json_text(text: Seq<char>) -> bool;

/// The string that serde_json finds at `text[outer][inner]`, if `text` is JSON and a string stands there.
pub uninterp spec fn json_string_at(text: Seq<char>, outer: Seq<char>, inner: Seq<char>) -> Option<Seq<char>>;

/// The compact JSON text (as serde_json::to_string writes it) of the member of `v` reached
/// through the object keys `path`; `None` where a key is missing or a value on the way is not
/// an object. The empty path gives the text of `v` itself.
pub uninterp spec fn value_text_at(v: serde_json::Value, path: Seq<Seq<char>>) -> Option<Seq<char>>;

/// `value_text_at` of the value that serde_json parses from `text`.
pub uninterp spec fn json_text_at(text: Seq<char>, path: Seq<Seq<char>>) -> Option<Seq<char>>;

/// The text that serde_json::to_string_pretty writes for `v`.
pub uninterp spec fn pretty_text_of(v: serde_json::Value) -> Seq<char>;

/// Compact text of an object: it opens with a brace.
pub open spec fn is_object_text(t: Option<Seq<char>>) -> bool {
    t matches Some(x) && x.len() > 0 && x[0] == '{'
}

/// Compact text of Null.
pub open spec fn is_null_text(t: Option<Seq<char>>) -> bool {
    t == Some("null"@)
}

/// A member that a key can be written below: absent, Null or an object.
pub open spec fn can_hold(t: Option<Seq<char>>) -> bool {
    t is None || is_null_text(t) || is_object_text(t)
}

/// `v` has no members at all.
pub open spec fn has_no_members(v: serde_json::Value) -> bool {
    forall|p: Seq<Seq<char>>| p.len() > 0 ==> (#[trigger] value_text_at(v, p)) is None
}

/// Relies on serde_json::from_str: it succeeds exactly on JSON text.
#[verifier::external_body]
fn parse_json(text: &str) -> (r: Result<serde_json::Value, serde_json::Error>)
    ensures
        r.is_ok() == is_json_text(text@),
        r matches Ok(v) ==> forall|p: Seq<Seq<char>>| #[trigger] value_text_at(v, p) == json_text_at(text@, p),
{
    serde_json::from_str::<serde_json::Value>(text)
}

/// Relies on serde_json::from_str, Value's `[key]` (Null where the key is missing) and
/// Value::as_str: the string at a two-key path of a JSON text.
#[verifier::external_body]
fn json_string_lookup(text: &str, outer: &str, inner: &str) -> (r: Option<String>)
    ensures
        r matches Some(s) ==> json_string_at(text@, outer@, inner@) == Some(s@),
        r is None ==> json_string_at(text@, outer@, inner@) is None,
        !is_json_text(text@) ==> r is None,
{
    match serde_json::from_str::<serde_json::Value>(text) {
        Ok(v) => v[outer][inner].as_str().map(str::to_string),
        Err(_) => None,
    }
}

/// Relies on serde_json::Value::is_null: true of Null, whose text is `null` and which has no members.
pub assume_specification[ serde_json::Value::is_null ](v: &serde_json::Value) -> (r: bool)
    ensures
        r == is_null_text(value_text_at(*v, seq![])),
        r ==> has_no_members(*v),
;

/// Relies on serde_json::Map::new wrapped in Value::Object: an empty object, written `{}`.
#[verifier::external_body]
fn json_empty_object() -> (r: serde_json::Value)
    ensures
        value_text_at(r, seq![]) == Some("{}"@),
        has_no_members(r),
{
    serde_json::Value::Object(serde_json::Map::new())
}

/// Relies on serde_json::Value::as_object_mut and Map::remove: takes the member `key` out
/// of an object, giving Null where there is none or `obj` is not an object.
#[verifier::external_body]
fn json_take_member(obj: &mut serde_json::Value, key: &str) -> (r: serde_json::Value)
    ensures
        value_text_at(r, seq![]) == (match value_text_at(*old(obj), seq![key@]) {
            Some(t) => Some(t),
            None => Some("null"@),
        }),
        forall|p: Seq<Seq<char>>| p.len() > 0 ==> #[trigger] value_text_at(r, p) == value_text_at(*old(obj), seq![key@] + p),
        is_object_text(value_text_at(*old(obj), seq![])) ==> is_object_text(value_text_at(*final(obj), seq![])),
        !is_object_text(value_text_at(*old(obj), seq![])) ==> *final(obj) == *old(obj),
        forall|q: Seq<Seq<char>>| q.len() > 0 && q[0] != key@ ==> #[trigger] value_text_at(*final(obj), q) == value_text_at(*old(obj), q),
{
    match obj.as_object_mut() {
        Some(m) => m.remove(key).unwrap_or(serde_json::Value::Null),
        None => serde_json::Value::Null,
    }
}

/// Relies on serde_json::Value::as_object_mut and Map::insert: sets the member `key` of an
/// object to `child`; false, and nothing changed, where `obj` is not an object.
#[verifier::external_body]
fn json_put_member(obj: &mut serde_json::Value, key: &str, child: serde_json::Value) -> (r: bool)
    ensures
        r == is_object_text(value_text_at(*old(obj), seq![])),
        !r ==> *final(obj) == *old(obj),
        r ==> is_object_text(value_text_at(*final(obj), seq![])),
        r ==> forall|p: Seq<Seq<char>>| #[trigger] value_text_at(*final(obj), seq![key@] + p) == value_text_at(child, p),
        forall|q: Seq<Seq<char>>| q.len() > 0 && q[0] != key@ ==> #[trigger] value_text_at(*final(obj), q) == value_text_at(*old(obj), q),
{
    match obj.as_object_mut() {
        Some(m) => {
            m.insert(key.to_string(), child);
            true
        },
        None => false,
    }
}

/// Relies on serde_json::to_string_pretty, which cannot fail on a Value: its keys are strings
/// and its Serialize impl has no error of its own.
#[verifier::external_body]
fn json_pretty(v: &serde_json::Value) -> (r: Result<String, serde_json::Error>)
    ensures
        r is Ok,
        r matches Ok(t) ==> t@ == pretty_text_of(*v),
{
    serde_json::to_string_pretty(v)
}

/// A string that serde_json writes between quotes as it is: no control character, quote or
/// backslash.
pub open spec fn plain_text(s: Seq<char>) -> bool {
    forall|i: int| 0 <= i < s.len() ==> ' ' <= #[trigger] s[i] && s[i] != '"' && s[i] != '\\'
}

/// A plain string in JSON quotes.
pub open spec fn quoted(s: Seq<char>) -> Seq<char> {
    "\""@ + s + "\""@
}

/// Quoted strings separated by commas.
pub open spec fn quoted_list(items: Seq<Seq<char>>) -> Seq<char>
    decreases items.len(),
{
    if items.len() == 0 {
        Seq::empty()
    } else if items.len() == 1 {
        quoted(items[0])
    } else {
        quoted_list(items.drop_last()) + ","@ + quoted(items.last())
    }
}

/// Relies on serde_json's From<&str> for Value: a JSON string, written between quotes with
/// only control characters, quotes and backslashes escaped.
#[verifier::external_body]
fn json_string(s: &str) -> (r: serde_json::Value)
    ensures
        plain_text(s@) ==> value_text_at(r, seq![]) == Some(quoted(s@)),
        has_no_members(r),
{
    serde_json::Value::from(s)
}

/// Relies on serde_json's From<u64> for Value: a JSON number, written in decimal.
#[verifier::external_body]
fn json_number(n: u64) -> (r: serde_json::Value)
    ensures
        value_text_at(r, seq![]) == Some(decimal_of(n as nat)),
        has_no_members(r),
{
    serde_json::Value::from(n)
}

/// Relies on serde_json's From<Vec<String>> for Value: a JSON array of strings, written
/// between brackets with commas between the items.
#[verifier::external_body]
fn json_string_array(items: Vec<String>) -> (r: serde_json::Value)
    ensures
        (forall|i: int| 0 <= i < items@.len() ==> plain_text(#[trigger] items@[i]@)) ==> value_text_at(r, seq![])
            == Some("["@ + quoted_list(views(items@)) + "]"@),
        has_no_members(r),
{
    serde_json::Value::from(items)
}

/// `a` is `b` or an ancestor of it.
pub open spec fn is_prefix(a: Seq<Seq<char>>, b: Seq<Seq<char>>) -> bool {
    a.len() <= b.len() && b.take(a.len() as int) == a
}

/// One of two key paths lies on the other.
pub open spec fn related(a: Seq<Seq<char>>, b: Seq<Seq<char>>) -> bool {
    is_prefix(a, b) || is_prefix(b, a)
}

/// Writing at `s` below the top of `v` can go through: `v` is Null or an object, and every
/// member on the way to `s` is absent, Null or an object.
pub open spec fn writable(v: serde_json::Value, s: Seq<Seq<char>>) -> bool {
    &&& is_null_text(value_text_at(v, seq![])) || is_object_text(value_text_at(v, seq![]))
    &&& forall|m: int| 0 <= m < s.len() ==> can_hold(#[trigger] value_text_at(v, s.take(m)))
}

/// The key path of `path[i..]`.
pub open spec fn suffix(path: Seq<String>, i: int) -> Seq<Seq<char>> {
    views(path).subrange(i, path.len() as int)
}

/// Puts `value` at `path[i..]` below `doc`, making objects of missing members and of Null on
/// the way. Where that can go through it does; then the value stands there, every member on
/// the way is an object, and members off the path are as they were.
fn set_path(doc: &mut serde_json::Value, path: &Vec<String>, i: usize, value: serde_json::Value) -> (ok: bool)
    requires
        i < path@.len(),
    ensures
        writable(*old(doc), suffix(path@, i as int)) ==> ok,
        ok ==> forall|q: Seq<Seq<char>>| #[trigger] value_text_at(*final(doc), suffix(path@, i as int) + q) == value_text_at(value, q),
        ok ==> forall|k: int| 0 <= k < suffix(path@, i as int).len() ==> is_object_text(
            #[trigger] value_text_at(*final(doc), suffix(path@, i as int).take(k)),
        ),
        ok ==> forall|p: Seq<Seq<char>>| !related(p, suffix(path@, i as int)) ==> #[trigger] value_text_at(*final(doc), p)
            == value_text_at(*old(doc), p),
    decreases path@.len() - i,
{
    let ghost s = suffix(path@, i as int);
    let ghost d0 = *doc;
    if doc.is_null() {
        *doc = json_empty_object();
    }
    let ghost d1 = *doc;
    let key = path[i].as_str();
    proof {
        reveal_strlit("{}");
        assert(s[0] == key@);
        assert forall|p: Seq<Seq<char>>| p.len() > 0 implies #[trigger] value_text_at(d1, p) == value_text_at(d0, p) by {}
        if writable(d0, s) {
            assert(is_object_text(value_text_at(d1, seq![])));
        }
    }
    if i == path.len() - 1 {
        let ok = json_put_member(doc, key, value);
        proof {
            assert(s =~= seq![key@]);
            if ok {
                assert forall|k: int| 0 <= k < s.len() implies is_object_text(#[trigger] value_text_at(*doc, s.take(k))) by {
                    assert(s.take(k) =~= Seq::<Seq<char>>::empty());
                }
                assert forall|p: Seq<Seq<char>>| !related(p, s) implies #[trigger] value_text_at(*doc, p) == value_text_at(d0, p) by {
                    if p.len() == 0 {
                        assert(s.take(0) =~= p);
                    } else if p[0] == key@ {
                        assert(p.take(1) =~= s);
                    }
                }
            }
        }
        ok
    } else {
        let mut child = json_take_member(doc, key);
        let ghost d2 = *doc;
        let ghost c0 = child;
        let ghost s1 = suffix(path@, i + 1);
        proof {
            assert(s =~= seq![key@] + s1);
            if writable(d0, s) {
                assert(s.take(1) =~= seq![key@]);
                assert(can_hold(value_text_at(d0, s.take(1))));
                assert(value_text_at(d1, seq![key@]) == value_text_at(d0, seq![key@]));
                assert forall|m: int| 0 <= m < s1.len() implies can_hold(#[trigger] value_text_at(c0, s1.take(m))) by {
                    if m == 0 {
                        assert(s1.take(0) =~= Seq::<Seq<char>>::empty());
                    } else {
                        assert(s.take(m + 1) =~= seq![key@] + s1.take(m));
                        assert(can_hold(value_text_at(d0, s.take(m + 1))));
                    }
                }
                assert(s1.take(0) =~= Seq::<Seq<char>>::empty());
            }
        }
        let inner = set_path(&mut child, path, i + 1, value);
        let put = json_put_member(doc, key, child);
        proof {
            if inner && put {
                assert forall|q: Seq<Seq<char>>| #[trigger] value_text_at(*doc, s + q) == value_text_at(value, q) by {
                    assert(s + q =~= seq![key@] + (s1 + q));
                }
                assert forall|k: int| 0 <= k < s.len() implies is_object_text(#[trigger] value_text_at(*doc, s.take(k))) by {
                    if k == 0 {
                        assert(s.take(0) =~= Seq::<Seq<char>>::empty());
                    } else {
                        assert(s.take(k) =~= seq![key@] + s1.take(k - 1));
                    }
                }
                assert forall|p: Seq<Seq<char>>| !related(p, s) implies #[trigger] value_text_at(*doc, p) == value_text_at(d0, p) by {
                    if p.len() == 0 {
                        assert(s.take(0) =~= p);
                    } else if p[0] == key@ {
                        let p1 = p.drop_first();
                        assert(p =~= seq![key@] + p1);
                        if p1.len() == 0 {
                            assert(s.take(1) =~= p);
                        }
                        if is_prefix(p1, s1) {
                            assert(s.take(p.len() as int) =~= seq![key@] + s1.take(p1.len() as int));
                        }
                        if is_prefix(s1, p1) {
                            assert(p.take(s.len() as int) =~= seq![key@] + p1.take(s1.len() as int));
                        }
                        assert(!related(p1, s1));
                        assert(value_text_at(*doc, p) == value_text_at(child, p1));
                        assert(value_text_at(child, p1) == value_text_at(c0, p1));
                    } else {
                    }
                }
            }
        }
        inner && put
    }
}

/// A JSON value that the desktop settings write.
pub enum JsonLiteral {
    Text(Seq<char>),
    Number(nat),
    TextList(Seq<Seq<char>>),
}

/// The compact text of a literal.
pub open spec fn compact_text(l: JsonLiteral) -> Seq<char> {
    match l {
        JsonLiteral::Text(s) => quoted(s),
        JsonLiteral::Number(n) => decimal_of(n),
        JsonLiteral::TextList(xs) => "["@ + quoted_list(xs) + "]"@,
    }
}

/// The strings of a literal need no escaping.
pub open spec fn literal_is_plain(l: JsonLiteral) -> bool {
    match l {
        JsonLiteral::Text(s) => plain_text(s),
        JsonLiteral::Number(_) => true,
        JsonLiteral::TextList(xs) => all_plain(xs),
    }
}

/// None of the strings needs escaping.
pub open spec fn all_plain(xs: Seq<Seq<char>>) -> bool {
    forall|i: int| 0 <= i < xs.len() ==> plain_text(#[trigger] xs[i])
}

/// What a setting puts at `path + q`: the literal itself where `q` is empty; it has no members.
pub open spec fn literal_text_at(l: JsonLiteral, q: Seq<Seq<char>>) -> Option<Seq<char>> {
    if q.len() == 0 { Some(compact_text(l)) } else { None }
}

/// The value of a desktop setting.
pub enum SettingValue {
    Text(String),
    Number(u64),
    TextList(Vec<String>),
}

impl View for SettingValue {
    type V = JsonLiteral;

    open spec fn view(&self) -> JsonLiteral {
        match self {
            SettingValue::Text(s) => JsonLiteral::Text(s@),
            SettingValue::Number(n) => JsonLiteral::Number(*n as nat),
            SettingValue::TextList(xs) => JsonLiteral::TextList(views(xs@)),
        }
    }
}

/// One write of the desktop configuration: a key path and the value put there.
pub struct ConfigSetting {
    pub path: Vec<String>,
    pub value: SettingValue,
}

/// The loopback listen address of a port, as the node writes it.
pub open spec fn loopback_address(port: u16) -> Seq<char> {
    "/ip4/127.0.0.1/tcp/"@ + decimal_of(port as nat)
}

/// The key paths that the desktop settings own, in the order in which they are written.
pub open spec fn desktop_paths() -> Seq<Seq<Seq<char>>> {
    seq![
        seq!["API"@, "HTTPHeaders"@, "Access-Control-Allow-Origin"@],
        seq!["API"@, "HTTPHeaders"@, "Access-Control-Allow-Methods"@],
        seq!["API"@, "HTTPHeaders"@, "Access-Control-Allow-Headers"@],
        seq!["Datastore"@, "StorageMax"@],
        seq!["Datastore"@, "StorageGCWatermark"@],
        seq!["Addresses"@, "API"@],
        seq!["Addresses"@, "Gateway"@],
        seq!["Swarm"@, "ConnMgr"@, "LowWater"@],
        seq!["Swarm"@, "ConnMgr"@, "HighWater"@],
        seq!["Swarm"@, "ConnMgr"@, "GracePeriod"@],
        seq!["Routing"@, "Type"@],
    ]
}

/// The values of the desktop settings: cross-origin access for the companion app, the storage
/// quota and collection watermark, loopback-only API and gateway addresses, low
/// connection-manager limits and the client routing mode.
pub open spec fn desktop_values(api_port: u16, gateway_port: u16) -> Seq<JsonLiteral> {
    seq![
        JsonLiteral::TextList(seq!["*"@]),
        JsonLiteral::TextList(seq!["PUT"@, "POST"@, "GET"@]),
        JsonLiteral::TextList(seq!["Authorization"@, "X-Requested-With"@, "Range"@, "Content-Range"@]),
        JsonLiteral::Text("50GB"@),
        JsonLiteral::Number(90),
        JsonLiteral::Text(loopback_address(api_port)),
        JsonLiteral::Text(loopback_address(gateway_port)),
        JsonLiteral::Number(50),
        JsonLiteral::Number(100),
        JsonLiteral::Text("60s"@),
        JsonLiteral::Text("dhtclient"@),
    ]
}

/// `p` lies on the path of a desktop setting, below it, or is one.
pub open spec fn owned_by_settings(p: Seq<Seq<char>>) -> bool {
    exists|k: int| 0 <= k < desktop_paths().len() && related(p, #[trigger] desktop_paths()[k])
}

/// The configuration document `d` is `original` with the desktop settings applied: each
/// setting's value stands at its path, and every member off those paths is as it was.
pub open spec fn desktop_document(d: serde_json::Value, original: Seq<char>, api_port: u16, gateway_port: u16) -> bool {
    &&& forall|k: int, q: Seq<Seq<char>>| 0 <= k < desktop_paths().len() ==> #[trigger] value_text_at(d, desktop_paths()[k] + q)
        == literal_text_at(desktop_values(api_port, gateway_port)[k], q)
    &&& forall|p: Seq<Seq<char>>| !owned_by_settings(p) ==> #[trigger] value_text_at(d, p) == json_text_at(original, p)
}

/// Every desktop setting can be written into the JSON text `text`: its top is an object (or
/// Null), and every member on the setting paths is absent, Null or an object.
pub open spec fn settings_writable(text: Seq<char>) -> bool {
    &&& is_null_text(json_text_at(text, seq![])) || is_object_text(json_text_at(text, seq![]))
    &&& forall|k: int, m: int| 0 <= k < desktop_paths().len() && 0 <= m < desktop_paths()[k].len() ==> can_hold(
        #[trigger] json_text_at(text, desktop_paths()[k].take(m)),
    )
}

proof fn lemma_decimal_digits(n: nat)
    ensures
        forall|i: int| 0 <= i < decimal_of(n).len() ==> '0' <= #[trigger] decimal_of(n)[i] && decimal_of(n)[i] <= '9',
    decreases n,
{
    if n >= 10 {
        lemma_decimal_digits(n / 10);
        let p = decimal_of(n / 10);
        assert forall|i: int| 0 <= i < decimal_of(n).len() implies '0' <= #[trigger] decimal_of(n)[i] && decimal_of(n)[i] <= '9' by {
            if i < p.len() {
                assert(decimal_of(n)[i] == p[i]);
            }
        }
    }
}

proof fn lemma_desktop_values_plain(api_port: u16, gateway_port: u16)
    ensures
        forall|k: int| 0 <= k < 11 ==> literal_is_plain(#[trigger] desktop_values(api_port, gateway_port)[k]),
{
    reveal_strlit("*");
    reveal_strlit("PUT");
    reveal_strlit("POST");
    reveal_strlit("GET");
    reveal_strlit("Authorization");
    reveal_strlit("X-Requested-With");
    reveal_strlit("Range");
    reveal_strlit("Content-Range");
    reveal_strlit("50GB");
    reveal_strlit("60s");
    reveal_strlit("dhtclient");
    reveal_strlit("/ip4/127.0.0.1/tcp/");
    lemma_decimal_digits(api_port as nat);
    lemma_decimal_digits(gateway_port as nat);
    assert forall|port: u16| port == api_port || port == gateway_port implies plain_text(#[trigger] loopback_address(port)) by {
        let pre = "/ip4/127.0.0.1/tcp/"@;
        let d = decimal_of(port as nat);
        assert forall|i: int| 0 <= i < loopback_address(port).len() implies ' ' <= #[trigger] loopback_address(port)[i]
            && loopback_address(port)[i] != '"' && loopback_address(port)[i] != '\\' by {
            if i < pre.len() {
                assert(loopback_address(port)[i] == pre[i]);
            } else {
                assert(loopback_address(port)[i] == d[i - pre.len()]);
            }
        }
    }
    let v = desktop_values(api_port, gateway_port);
    assert(literal_is_plain(v[0]));
    assert(literal_is_plain(v[1]));
    assert(literal_is_plain(v[2]));
}

proof fn lemma_not_prefix_at(a: Seq<Seq<char>>, b: Seq<Seq<char>>, idx: int)
    requires
        0 <= idx < a.len(),
        idx < b.len(),
        a[idx] != b[idx],
    ensures
        !is_prefix(a, b),
{
    if is_prefix(a, b) {
        assert(b.take(a.len() as int)[idx] == b[idx]);
    }
}

proof fn lemma_desktop_paths_apart()
    ensures
        forall|j: int, k: int| 0 <= j < 11 && 0 <= k < 11 && j != k ==> !is_prefix(
            #[trigger] desktop_paths()[j],
            #[trigger] desktop_paths()[k],
        ),
{
    reveal_strlit("API");
    reveal_strlit("HTTPHeaders");
    reveal_strlit("Access-Control-Allow-Origin");
    reveal_strlit("Access-Control-Allow-Methods");
    reveal_strlit("Access-Control-Allow-Headers");
    reveal_strlit("Datastore");
    reveal_strlit("StorageMax");
    reveal_strlit("StorageGCWatermark");
    reveal_strlit("Addresses");
    reveal_strlit("Gateway");
    reveal_strlit("Swarm");
    reveal_strlit("ConnMgr");
    reveal_strlit("LowWater");
    reveal_strlit("HighWater");
    reveal_strlit("GracePeriod");
    reveal_strlit("Routing");
    reveal_strlit("Type");
    let ps = desktop_paths();
    assert(ps[0][0] == "API"@);
    assert(ps[0][1] == "HTTPHeaders"@);
    assert(ps[0][2] == "Access-Control-Allow-Origin"@);
    assert(ps[1][0] == "API"@);
    assert(ps[1][1] == "HTTPHeaders"@);
    assert(ps[1][2] == "Access-Control-Allow-Methods"@);
    assert(ps[2][0] == "API"@);
    assert(ps[2][1] == "HTTPHeaders"@);
    assert(ps[2][2] == "Access-Control-Allow-Headers"@);
    assert(ps[3][0] == "Datastore"@);
    assert(ps[3][1] == "StorageMax"@);
    assert(ps[4][0] == "Datastore"@);
    assert(ps[4][1] == "StorageGCWatermark"@);
    assert(ps[5][0] == "Addresses"@);
    assert(ps[5][1] == "API"@);
    assert(ps[6][0] == "Addresses"@);
    assert(ps[6][1] == "Gateway"@);
    assert(ps[7][0] == "Swarm"@);
    assert(ps[7][1] == "ConnMgr"@);
    assert(ps[7][2] == "LowWater"@);
    assert(ps[8][0] == "Swarm"@);
    assert(ps[8][1] == "ConnMgr"@);
    assert(ps[8][2] == "HighWater"@);
    assert(ps[9][0] == "Swarm"@);
    assert(ps[9][1] == "ConnMgr"@);
    assert(ps[9][2] == "GracePeriod"@);
    assert(ps[10][0] == "Routing"@);
    assert(ps[10][1] == "Type"@);
    assert("Access-Control-Allow-Origin"@.len() != "Access-Control-Allow-Methods"@.len());
    lemma_not_prefix_at(ps[0], ps[1], 2);
    assert("Access-Control-Allow-Origin"@.len() != "Access-Control-Allow-Headers"@.len());
    lemma_not_prefix_at(ps[0], ps[2], 2);
    assert("API"@.len() != "Swarm"@.len());
    lemma_not_prefix_at(ps[0], ps[7], 0);
    lemma_not_prefix_at(ps[0], ps[8], 0);
    lemma_not_prefix_at(ps[0], ps[9], 0);
    assert("Access-Control-Allow-Methods"@.len() != "Access-Control-Allow-Origin"@.len());
    lemma_not_prefix_at(ps[1], ps[0], 2);
    assert("Access-Control-Allow-Methods"@[21] != "Access-Control-Allow-Headers"@[21]);
    lemma_not_prefix_at(ps[1], ps[2], 2);
    lemma_not_prefix_at(ps[1], ps[7], 0);
    lemma_not_prefix_at(ps[1], ps[8], 0);
    lemma_not_prefix_at(ps[1], ps[9], 0);
    assert("Access-Control-Allow-Headers"@.len() != "Access-Control-Allow-Origin"@.len());
    lemma_not_prefix_at(ps[2], ps[0], 2);
    assert("Access-Control-Allow-Headers"@[21] != "Access-Control-Allow-Methods"@[21]);
    lemma_not_prefix_at(ps[2], ps[1], 2);
    lemma_not_prefix_at(ps[2], ps[7], 0);
    lemma_not_prefix_at(ps[2], ps[8], 0);
    lemma_not_prefix_at(ps[2], ps[9], 0);
    assert("Datastore"@.len() != "API"@.len());
    lemma_not_prefix_at(ps[3], ps[0], 0);
    lemma_not_prefix_at(ps[3], ps[1], 0);
    lemma_not_prefix_at(ps[3], ps[2], 0);
    assert("StorageMax"@.len() != "StorageGCWatermark"@.len());
    lemma_not_prefix_at(ps[3], ps[4], 1);
    assert("Datastore"@[0] != "Addresses"@[0]);
    lemma_not_prefix_at(ps[3], ps[5], 0);
    lemma_not_prefix_at(ps[3], ps[6], 0);
    assert("Datastore"@.len() != "Swarm"@.len());
    lemma_not_prefix_at(ps[3], ps[7], 0);
    lemma_not_prefix_at(ps[3], ps[8], 0);
    lemma_not_prefix_at(ps[3], ps[9], 0);
    assert("Datastore"@.len() != "Routing"@.len());
    lemma_not_prefix_at(ps[3], ps[10], 0);
    lemma_not_prefix_at(ps[4], ps[0], 0);
    lemma_not_prefix_at(ps[4], ps[1], 0);
    lemma_not_prefix_at(ps[4], ps[2], 0);
    assert("StorageGCWatermark"@.len() != "StorageMax"@.len());
    lemma_not_prefix_at(ps[4], ps[3], 1);
    lemma_not_prefix_at(ps[4], ps[5], 0);
    lemma_not_prefix_at(ps[4], ps[6], 0);
    lemma_not_prefix_at(ps[4], ps[7], 0);
    lemma_not_prefix_at(ps[4], ps[8], 0);
    lemma_not_prefix_at(ps[4], ps[9], 0);
    lemma_not_prefix_at(ps[4], ps[10], 0);
    assert("Addresses"@.len() != "API"@.len());
    lemma_not_prefix_at(ps[5], ps[0], 0);
    lemma_not_prefix_at(ps[5], ps[1], 0);
    lemma_not_prefix_at(ps[5], ps[2], 0);
    assert("Addresses"@[0] != "Datastore"@[0]);
    lemma_not_prefix_at(ps[5], ps[3], 0);
    lemma_not_prefix_at(ps[5], ps[4], 0);
    assert("API"@.len() != "Gateway"@.len());
    lemma_not_prefix_at(ps[5], ps[6], 1);
    assert("Addresses"@.len() != "Swarm"@.len());
    lemma_not_prefix_at(ps[5], ps[7], 0);
    lemma_not_prefix_at(ps[5], ps[8], 0);
    lemma_not_prefix_at(ps[5], ps[9], 0);
    assert("Addresses"@.len() != "Routing"@.len());
    lemma_not_prefix_at(ps[5], ps[10], 0);
    lemma_not_prefix_at(ps[6], ps[0], 0);
    lemma_not_prefix_at(ps[6], ps[1], 0);
    lemma_not_prefix_at(ps[6], ps[2], 0);
    lemma_not_prefix_at(ps[6], ps[3], 0);
    lemma_not_prefix_at(ps[6], ps[4], 0);
    assert("Gateway"@.len() != "API"@.len());
    lemma_not_prefix_at(ps[6], ps[5], 1);
    lemma_not_prefix_at(ps[6], ps[7], 0);
    lemma_not_prefix_at(ps[6], ps[8], 0);
    lemma_not_prefix_at(ps[6], ps[9], 0);
    lemma_not_prefix_at(ps[6], ps[10], 0);
    assert("Swarm"@.len() != "API"@.len());
    lemma_not_prefix_at(ps[7], ps[0], 0);
    lemma_not_prefix_at(ps[7], ps[1], 0);
    lemma_not_prefix_at(ps[7], ps[2], 0);
    assert("LowWater"@.len() != "HighWater"@.len());
    lemma_not_prefix_at(ps[7], ps[8], 2);
    assert("LowWater"@.len() != "GracePeriod"@.len());
    lemma_not_prefix_at(ps[7], ps[9], 2);
    lemma_not_prefix_at(ps[8], ps[0], 0);
    lemma_not_prefix_at(ps[8], ps[1], 0);
    lemma_not_prefix_at(ps[8], ps[2], 0);
    assert("HighWater"@.len() != "LowWater"@.len());
    lemma_not_prefix_at(ps[8], ps[7], 2);
    assert("HighWater"@.len() != "GracePeriod"@.len());
    lemma_not_prefix_at(ps[8], ps[9], 2);
    lemma_not_prefix_at(ps[9], ps[0], 0);
    lemma_not_prefix_at(ps[9], ps[1], 0);
    lemma_not_prefix_at(ps[9], ps[2], 0);
    assert("GracePeriod"@.len() != "LowWater"@.len());
    lemma_not_prefix_at(ps[9], ps[7], 2);
    assert("GracePeriod"@.len() != "HighWater"@.len());
    lemma_not_prefix_at(ps[9], ps[8], 2);
    assert("Routing"@.len() != "API"@.len());
    lemma_not_prefix_at(ps[10], ps[0], 0);
    lemma_not_prefix_at(ps[10], ps[1], 0);
    lemma_not_prefix_at(ps[10], ps[2], 0);
    assert("Routing"@.len() != "Datastore"@.len());
    lemma_not_prefix_at(ps[10], ps[3], 0);
    lemma_not_prefix_at(ps[10], ps[4], 0);
    assert("Routing"@.len() != "Addresses"@.len());
    lemma_not_prefix_at(ps[10], ps[5], 0);
    lemma_not_prefix_at(ps[10], ps[6], 0);
    assert("Routing"@.len() != "Swarm"@.len());
    lemma_not_prefix_at(ps[10], ps[7], 0);
    lemma_not_prefix_at(ps[10], ps[8], 0);
    lemma_not_prefix_at(ps[10], ps[9], 0);
}

proof fn lemma_prefix_trans(a: Seq<Seq<char>>, b: Seq<Seq<char>>, c: Seq<Seq<char>>)
    requires
        is_prefix(a, b),
        is_prefix(b, c),
    ensures
        is_prefix(a, c),
{
    assert(c.take(a.len() as int) =~= c.take(b.len() as int).take(a.len() as int));
}

proof fn lemma_apart_extended(a: Seq<Seq<char>>, b: Seq<Seq<char>>, q: Seq<Seq<char>>)
    requires
        !is_prefix(a, b),
        !is_prefix(b, a),
    ensures
        !related(a + q, b),
{
    if is_prefix(a + q, b) {
        assert(b.take(a.len() as int) =~= (a + q).take(a.len() as int));
        assert((a + q).take(a.len() as int) =~= a);
    }
    if is_prefix(b, a + q) {
        if b.len() <= a.len() {
            assert(a.take(b.len() as int) =~= (a + q).take(b.len() as int));
        } else {
            assert(b.take(a.len() as int) =~= (a + q).take(a.len() as int));
            assert((a + q).take(a.len() as int) =~= a);
        }
    }
}

fn copy_strings(v: &Vec<String>) -> (r: Vec<String>)
    ensures
        views(r@) == views(v@),
{
    let mut r: Vec<String> = Vec::new();
    let mut i: usize = 0;
    while i < v.len()
        invariant
            i <= v.len(),
            views(r@) == views(v@).take(i as int),
        decreases v.len() - i,
    {
        let x = v[i].clone();
        let ghost prev = views(r@);
        r.push(x);
        assert(views(r@) =~= prev.push(x@));
        assert(views(v@).take(i + 1) =~= views(v@).take(i as int).push(v@[i as int]@));
        i = i + 1;
    }
    assert(views(v@).take(i as int) =~= views(v@));
    r
}

fn to_json(v: &SettingValue) -> (r: serde_json::Value)
    requires
        literal_is_plain(v@),
    ensures
        value_text_at(r, seq![]) == Some(compact_text(v@)),
        has_no_members(r),
{
    match v {
        SettingValue::Text(s) => json_string(s.as_str()),
        SettingValue::Number(n) => json_number(*n),
        SettingValue::TextList(xs) => {
            let items = copy_strings(xs);
            assert(v@ == JsonLiteral::TextList(views(xs@)));
            assert forall|i: int| 0 <= i < items@.len() implies plain_text(#[trigger] items@[i]@) by {
                assert(views(items@).len() == items@.len());
                assert(views(xs@).len() == xs@.len());
                assert(items@[i]@ == views(items@)[i]);
                assert(views(items@)[i] == views(xs@)[i]);
                assert(all_plain(views(xs@)));
                assert(plain_text(views(xs@)[i]));
            }
            json_string_array(items)
        },
    }
}

fn loopback_address_string(port: u16) -> (r: String)
    ensures
        r@ == loopback_address(port),
{
    let mut s = String::from_str("/ip4/127.0.0.1/tcp/");
    let d = decimal_string(port as u64);
    s.append(d.as_str());
    s
}

fn path2(a: &str, b: &str) -> (r: Vec<String>)
    ensures
        views(r@) == seq![a@, b@],
{
    let r = vec![String::from_str(a), String::from_str(b)];
    assert(views(r@) =~= seq![a@, b@]);
    r
}

fn path3(a: &str, b: &str, c: &str) -> (r: Vec<String>)
    ensures
        views(r@) == seq![a@, b@, c@],
{
    let r = vec![String::from_str(a), String::from_str(b), String::from_str(c)];
    assert(views(r@) =~= seq![a@, b@, c@]);
    r
}

fn text(s: &str) -> (r: SettingValue)
    ensures
        r@ == JsonLiteral::Text(s@),
{
    SettingValue::Text(String::from_str(s))
}

/// The writes of the desktop configuration, in the order in which they are applied.
pub fn desktop_settings(api_port: u16, gateway_port: u16) -> (r: Vec<ConfigSetting>)
    ensures
        r@.len() == desktop_paths().len(),
        forall|k: int| 0 <= k < r@.len() ==> views((#[trigger] r@[k]).path@) == desktop_paths()[k] && r@[k].value@
            == desktop_values(api_port, gateway_port)[k],
{
    let mut r: Vec<ConfigSetting> = Vec::new();
    let origins = vec![String::from_str("*")];
    assert(views(origins@) =~= seq!["*"@]);
    r.push(ConfigSetting { path: path3("API", "HTTPHeaders", "Access-Control-Allow-Origin"), value: SettingValue::TextList(origins) });
    let methods = vec![String::from_str("PUT"), String::from_str("POST"), String::from_str("GET")];
    assert(views(methods@) =~= seq!["PUT"@, "POST"@, "GET"@]);
    r.push(ConfigSetting { path: path3("API", "HTTPHeaders", "Access-Control-Allow-Methods"), value: SettingValue::TextList(methods) });
    let headers = vec![
        String::from_str("Authorization"),
        String::from_str("X-Requested-With"),
        String::from_str("Range"),
        String::from_str("Content-Range"),
    ];
    assert(views(headers@) =~= seq!["Authorization"@, "X-Requested-With"@, "Range"@, "Content-Range"@]);
    r.push(ConfigSetting { path: path3("API", "HTTPHeaders", "Access-Control-Allow-Headers"), value: SettingValue::TextList(headers) });
    r.push(ConfigSetting { path: path2("Datastore", "StorageMax"), value: text("50GB") });
    r.push(ConfigSetting { path: path2("Datastore", "StorageGCWatermark"), value: SettingValue::Number(90) });
    r.push(ConfigSetting { path: path2("Addresses", "API"), value: SettingValue::Text(loopback_address_string(api_port)) });
    r.push(ConfigSetting { path: path2("Addresses", "Gateway"), value: SettingValue::Text(loopback_address_string(gateway_port)) });
    r.push(ConfigSetting { path: path3("Swarm", "ConnMgr", "LowWater"), value: SettingValue::Number(50) });
    r.push(ConfigSetting { path: path3("Swarm", "ConnMgr", "HighWater"), value: SettingValue::Number(100) });
    r.push(ConfigSetting { path: path3("Swarm", "ConnMgr", "GracePeriod"), value: text("60s") });
    r.push(ConfigSetting { path: path2("Routing", "Type"), value: text("dhtclient") });
    r
}

/// Some desktop setting before the `i`-th lies on `p`, below it, or at it.
pub open spec fn related_to_first(p: Seq<Seq<char>>, i: int) -> bool {
    exists|j: int| 0 <= j < i && related(p, #[trigger] desktop_paths()[j])
}

/// Applies the desktop settings to the node's configuration document and gives the whole
/// document back as text, for a single write. A JSON document whose top and whose members on
/// the setting paths are objects, Null or absent is always accepted; the text written then
/// holds every setting at its path and keeps every member off those paths.
pub fn apply_desktop_settings(config_text: &str, api_port: u16, gateway_port: u16) -> (r: Result<String, AgentError>)
    ensures
        is_json_text(config_text@) && settings_writable(config_text@) ==> r is Ok,
        r is Ok ==> is_json_text(config_text@),
        r matches Err(e) ==> e is ConfigParse,
        r matches Ok(t) ==> exists|d: serde_json::Value| t@ == pretty_text_of(d) && desktop_document(
            d,
            config_text@,
            api_port,
            gateway_port,
        ),
{
    let mut doc = match parse_json(config_text) {
        Ok(v) => v,
        Err(_) => {
            return Err(AgentError::ConfigParse(String::from_str("the configuration is not valid JSON")));
        },
    };
    let ghost d0 = doc;
    let ghost ps = desktop_paths();
    let ghost vs = desktop_values(api_port, gateway_port);
    let ghost can_write = settings_writable(config_text@);
    let settings = desktop_settings(api_port, gateway_port);
    proof {
        lemma_desktop_values_plain(api_port, gateway_port);
        lemma_desktop_paths_apart();
        if can_write {
            assert forall|k: int| 0 <= k < 11 implies writable(d0, #[trigger] ps[k]) by {
                assert forall|m: int| 0 <= m < ps[k].len() implies can_hold(#[trigger] value_text_at(d0, ps[k].take(m))) by {
                    assert(can_hold(json_text_at(config_text@, desktop_paths()[k].take(m))));
                }
            }
        }
    }
    let mut i: usize = 0;
    assert(can_write ==> forall|k: int| 0 <= k < 11 ==> writable(doc, #[trigger] ps[k]));
    while i < settings.len()
        invariant
            settings@.len() == 11,
            ps == desktop_paths(),
            vs == desktop_values(api_port, gateway_port),
            forall|k: int| 0 <= k < 11 ==> views((#[trigger] settings@[k]).path@) == ps[k] && settings@[k].value@ == vs[k],
            forall|k: int| 0 <= k < 11 ==> literal_is_plain(#[trigger] vs[k]),
            forall|j: int, k: int| 0 <= j < 11 && 0 <= k < 11 && j != k ==> !is_prefix(#[trigger] ps[j], #[trigger] ps[k]),
            i <= 11,
            is_json_text(config_text@),
            can_write == settings_writable(config_text@),
            forall|p: Seq<Seq<char>>| #[trigger] value_text_at(d0, p) == json_text_at(config_text@, p),
            forall|j: int, q: Seq<Seq<char>>| 0 <= j < i ==> #[trigger] value_text_at(doc, ps[j] + q) == literal_text_at(vs[j], q),
            forall|p: Seq<Seq<char>>| !related_to_first(p, i as int) ==> #[trigger] value_text_at(doc, p) == value_text_at(d0, p),
            can_write ==> forall|k: int| i <= k < 11 ==> writable(doc, #[trigger] ps[k]),
        decreases settings.len() - i,
    {
        let value = to_json(&settings[i].value);
        let ghost before = doc;
        let ghost s = ps[i as int];
        assert(suffix(settings@[i as int].path@, 0) =~= s);
        assert(views(settings@[i as int].path@) == s);
        assert(settings@[i as int].path@.len() == s.len());
        assert(s.len() >= 1);
        assert(can_write ==> writable(doc, s));
        let ok = set_path(&mut doc, &settings[i].path, 0, value);
        assert(can_write ==> ok);
        if !ok {
            return Err(AgentError::ConfigParse(String::from_str("the configuration has a member of the wrong type")));
        }
        proof {
            assert forall|j: int, q: Seq<Seq<char>>| 0 <= j < i + 1 implies #[trigger] value_text_at(doc, ps[j] + q)
                == literal_text_at(vs[j], q) by {
                if j < i {
                    lemma_apart_extended(ps[j], s, q);
                } else {
                    if q.len() == 0 {
                        assert(q =~= Seq::<Seq<char>>::empty());
                    }
                    assert(value_text_at(value, q) == literal_text_at(vs[j], q));
                }
            }
            assert forall|p: Seq<Seq<char>>| !related_to_first(p, i + 1) implies #[trigger] value_text_at(doc, p)
                == value_text_at(d0, p) by {
                assert(!related(p, ps[i as int]));
                assert(!related_to_first(p, i as int));
            }
            if can_write {
                assert forall|k: int| i + 1 <= k < 11 implies writable(doc, #[trigger] ps[k]) by {
                    let t = ps[k];
                    assert(writable(before, t));
                    assert forall|m: int| 0 <= m < t.len() implies can_hold(#[trigger] value_text_at(doc, t.take(m))) by {
                        let a = t.take(m);
                        assert(is_prefix(a, t));
                        if is_prefix(a, s) {
                            if a.len() == s.len() {
                                assert(s.take(a.len() as int) =~= s);
                            }
                            assert(s.take(a.len() as int) == a);
                        } else if is_prefix(s, a) {
                            lemma_prefix_trans(s, a, t);
                        } else {
                            assert(can_hold(value_text_at(before, a)));
                        }
                    }
                    assert(s.take(0) =~= Seq::<Seq<char>>::empty());
                }
            }
        }
        i = i + 1;
    }
    let ghost d = doc;
    proof {
        assert forall|p: Seq<Seq<char>>| !owned_by_settings(p) implies #[trigger] value_text_at(d, p) == json_text_at(
            config_text@,
            p,
        ) by {
            if related_to_first(p, 11) {
                let j = choose|j: int| 0 <= j < 11 && related(p, #[trigger] desktop_paths()[j]);
                assert(owned_by_settings(p));
            }
        }
        assert(desktop_document(d, config_text@, api_port, gateway_port));
    }
    match json_pretty(&doc) {
        Ok(text) => Ok(text),
        Err(_) => Err(AgentError::ConfigParse(String::from_str("the configuration could not be written out"))),
    }
}

/// The peer identity recorded in a configuration document: an error where the document is not
/// JSON, `None` where it is JSON but holds no identity string.
pub fn peer_id_in(config_text: &str) -> (r: Result<Option<String>, AgentError>)
    ensures
        r is Err <==> !is_json_text(config_text@),
        r matches Err(e) ==> e is ConfigParse,
        r matches Ok(Some(p)) ==> json_string_at(config_text@, "Identity"@, "PeerID"@) == Some(p@),
        r matches Ok(None) ==> json_string_at(config_text@, "Identity"@, "PeerID"@) is None,
{
    match parse_json(config_text) {
        Ok(_) => Ok(json_string_lookup(config_text, "Identity", "PeerID")),
        Err(_) => Err(AgentError::ConfigParse(String::from_str("the configuration is not valid JSON"))),
    }
}

} // verus!
