//! Decoding a clicked menu identifier back into a typed action: strip the
//! trailing uniqueness suffix, split the canonical action string on `:`, and
//! route by tag and field count.

use vstd::prelude::*;

use crate::ident::uid_spec;
use crate::menu::{revert_action, switch_action, CatalogPairModel};
use crate::numeral::{all_digits, dec, digit_val, digits_val, is_digit, lemma_dec_shape,
    lemma_dec_val};
use crate::types::SessionInfo;
use crate::scan::{
    first_occurrence, last_occurrence, lemma_first_occurrence, lemma_first_occurrence_at,
    lemma_first_occurrence_none, lemma_last_occurrence, lemma_last_occurrence_at,
    lemma_last_occurrence_none, rfind_char,
};

verus! {

/// The identifier with its trailing `_<digits>` uniqueness suffix removed;
/// an identifier without such a suffix is unchanged.
pub open spec fn strip_spec(s: Seq<char>) -> Seq<char> {
    let p = last_occurrence(s, '_');
    if p >= 0 && all_digits(s.skip(p + 1)) {
        s.take(p)
    } else {
        s
    }
}

/// Does `c` read as an ASCII decimal digit?
fn digit_check(c: char) -> (r: bool)
    ensures
        r == is_digit(c),
{
    let u = c as u32;
    48 <= u && u <= 57
}

/// Strip the trailing `_<digits>` uniqueness suffix from a menu identifier,
/// if it has one.
pub fn strip_counter_suffix(id: &str) -> (r: String)
    ensures
        r@ == strip_spec(id@),
{
    let n = id.unicode_len();
    let mut i = n;
    while i > 0
        invariant_except_break
            i <= n,
            n == id@.len(),
            forall|j: int| i <= j < n ==> is_digit(#[trigger] id@[j]),
        ensures
            i <= n,
            n == id@.len(),
            forall|j: int| i <= j < n ==> is_digit(#[trigger] id@[j]),
            i > 0 ==> !is_digit(id@[i - 1]),
        decreases i,
    {
        if !digit_check(id.get_char(i - 1)) {
            break;
        }
        i = i - 1;
    }
    proof {
        assert forall|j: int| i <= j < n implies id@[j] != '_' by {
            assert(is_digit(id@[j]));
        }
    }
    if i > 0 && id.get_char(i - 1) == '_' {
        proof {
            lemma_last_occurrence_at(id@, '_', i - 1);
            assert(id@.skip(i as int) =~= id@.skip((i - 1) + 1));
        }
        let stripped = id.substring_char(0, i - 1);
        proof {
            assert(stripped@ =~= id@.take(i - 1));
        }
        String::from_str(stripped)
    } else {
        proof {
            if i == 0 {
                lemma_last_occurrence_none(id@, '_');
            } else {
                lemma_last_occurrence(id@, '_');
                let p = last_occurrence(id@, '_');
                if p >= 0 && all_digits(id@.skip(p + 1)) {
                    assert(p < i - 1);
                    assert(id@.skip(p + 1)[i - 1 - (p + 1)] == id@[i - 1]);
                    assert(false);
                }
            }
        }
        id.to_owned()
    }
}

/// Stripping the uniqueness suffix of a freshly allocated identifier
/// recovers its base exactly, whatever the base holds: a clicked menu
/// identifier always decodes back to the action string it was made from.
pub proof fn lemma_strip_uid(base: Seq<char>, n: nat)
    ensures
        strip_spec(uid_spec(base, n)) == base,
{
    reveal_strlit("_");
    let id = uid_spec(base, n);
    let b = base.len() as int;
    lemma_dec_shape(n);
    assert(id[b] == '_');
    assert forall|j: int| b < j < id.len() implies id[j] != '_' by {
        assert(id[j] == dec(n)[j - b - 1]);
        assert(is_digit(dec(n)[j - b - 1]));
        assert('_' as u32 == 95);
    }
    lemma_last_occurrence_at(id, '_', b);
    assert(id.skip(b + 1) =~= dec(n));
    assert(id.take(b) =~= base);
}

/// The fields of an action string: split on `:`, keeping empty fields.
pub open spec fn split_colon(s: Seq<char>) -> Seq<Seq<char>>
    decreases s.len(),
    via split_colon_decreases
{
    let p = first_occurrence(s, ':');
    if p < 0 {
        seq![s]
    } else {
        seq![s.take(p)] + split_colon(s.skip(p + 1))
    }
}

#[via_fn]
proof fn split_colon_decreases(s: Seq<char>) {
    lemma_first_occurrence(s, ':');
}

/// Splitting never yields an empty field list.
pub proof fn lemma_split_nonempty(s: Seq<char>)
    ensures
        split_colon(s).len() >= 1,
{
    lemma_first_occurrence(s, ':');
}

/// Split `s` into its `:`-separated fields.
pub fn split_colon_exec(s: &str) -> (parts: Vec<String>)
    ensures
        parts@.map_values(|p: String| p@) == split_colon(s@),
{
    let n = s.unicode_len();
    let mut parts: Vec<String> = Vec::new();
    let mut cur = String::new();
    let mut i: usize = 0;
    proof {
        assert(cur@ + s@.skip(0) =~= s@);
        assert(parts@.map_values(|p: String| p@) + split_colon(s@) =~= split_colon(s@));
    }
    while i < n
        invariant
            i <= n,
            n == s@.len(),
            forall|j: int| 0 <= j < cur@.len() ==> #[trigger] cur@[j] != ':',
            split_colon(s@) == parts@.map_values(|p: String| p@) + split_colon(
                cur@ + s@.skip(i as int),
            ),
        decreases n - i,
    {
        let c = s.get_char(i);
        let ghost pm0 = parts@.map_values(|p: String| p@);
        let ghost cur0 = cur@;
        if c == ':' {
            proof {
                let rest = s@.skip(i + 1);
                assert((cur0 + s@.skip(i as int))[cur0.len() as int] == ':');
                lemma_first_occurrence_at(cur0 + s@.skip(i as int), ':', cur0.len() as int);
                assert((cur0 + s@.skip(i as int)).take(cur0.len() as int) =~= cur0);
                assert((cur0 + s@.skip(i as int)).skip(cur0.len() as int + 1) =~= rest);
            }
            parts.push(cur);
            cur = String::new();
            proof {
                assert(parts@.map_values(|p: String| p@) =~= pm0.push(cur0));
                assert(cur@ + s@.skip(i + 1) =~= s@.skip(i + 1));
                assert(pm0.push(cur0) + split_colon(s@.skip(i + 1)) =~= pm0 + (seq![cur0]
                    + split_colon(s@.skip(i + 1))));
            }
        } else {
            let piece = s.substring_char(i, i + 1);
            proof {
                assert(piece@ =~= seq![s@[i as int]]);
            }
            cur.append(piece);
            proof {
                assert(cur@ + s@.skip(i + 1) =~= cur0 + s@.skip(i as int));
            }
        }
        i += 1;
    }
    proof {
        assert(cur@ + s@.skip(n as int) =~= cur@);
        lemma_first_occurrence_none(cur@, ':');
    }
    let ghost pm0 = parts@.map_values(|p: String| p@);
    let ghost cur0 = cur@;
    parts.push(cur);
    proof {
        assert(parts@.map_values(|p: String| p@) =~= pm0.push(cur0));
        assert(pm0.push(cur0) =~= pm0 + seq![cur0]);
    }
    parts
}

/// The port named by a field, after the grammar of unsigned integer parsing:
/// an optional leading `+`, then one or more digits, valued at most 65535;
/// anything else (and overflow) falls back to port 0.
pub open spec fn parse_port_spec(s: Seq<char>) -> u16 {
    let body = if s.len() > 0 && s[0] == '+' {
        s.drop_first()
    } else {
        s
    };
    if body.len() > 0 && all_digits(body) && digits_val(body) <= 65535 {
        digits_val(body) as u16
    } else {
        0
    }
}

/// Parse a port field, falling back to 0 on anything unparseable.
pub fn parse_port(s: &str) -> (r: u16)
    ensures
        r == parse_port_spec(s@),
{
    let n = s.unicode_len();
    let start: usize = if n > 0 && s.get_char(0) == '+' {
        1
    } else {
        0
    };
    let ghost body = if s@.len() > 0 && s@[0] == '+' {
        s@.drop_first()
    } else {
        s@
    };
    proof {
        assert(body =~= s@.skip(start as int));
    }
    if start >= n {
        return 0;
    }
    let mut val: u32 = 0;
    let mut over = false;
    let mut i = start;
    while i < n
        invariant
            start <= i <= n,
            n == s@.len(),
            body == s@.skip(start as int),
            body == (if s@.len() > 0 && s@[0] == '+' {
                s@.drop_first()
            } else {
                s@
            }),
            all_digits(body.take(i - start)),
            !over ==> val as nat == digits_val(body.take(i - start)) && val <= 65535,
            over ==> digits_val(body.take(i - start)) > 65535,
        decreases n - i,
    {
        let c = s.get_char(i);
        if !digit_check(c) {
            proof {
                assert(body[i - start] == s@[i as int]);
                assert(!is_digit(body[i - start]));
                assert(!all_digits(body));
            }
            return 0;
        }
        let d: u32 = c as u32 - 48;
        proof {
            let pk = body.take(i - start);
            let pk1 = body.take(i + 1 - start);
            assert(pk1.drop_last() =~= pk);
            assert(pk1.last() == body[i - start]);
            assert(body[i - start] == s@[i as int]);
            assert(digits_val(pk1) == digits_val(pk) * 10 + digit_val(c));
            assert forall|j: int| 0 <= j < pk1.len() implies is_digit(#[trigger] pk1[j]) by {
                if j < pk.len() {
                    assert(pk[j] == pk1[j]);
                }
            }
        }
        if !over {
            let v2: u32 = val * 10 + d;
            if v2 > 65535 {
                over = true;
            } else {
                val = v2;
            }
        }
        i += 1;
    }
    proof {
        assert(body.take(n - start) =~= body);
    }
    if over {
        0
    } else {
        val as u16
    }
}

/// A decoded menu action: what a clicked identifier asks the control plane
/// to do.
#[derive(Debug, Clone, PartialEq)]
pub enum MenuAction {
    /// Terminate the process.
    Quit,
    /// Ask one session to switch to a provider and model.
    Switch { control_port: u16, session_id: String, provider: String, model: String },
    /// Ask one session to revert to its native model.
    Revert { control_port: u16, session_id: String },
    /// A non-actionable or malformed identifier: do nothing.
    Ignore,
}

/// The mathematical shape of a decoded action.
pub enum ActionModel {
    Quit,
    Switch { control_port: u16, session_id: Seq<char>, provider: Seq<char>, model: Seq<char> },
    Revert { control_port: u16, session_id: Seq<char> },
    Ignore,
}

impl View for MenuAction {
    type V = ActionModel;

    open spec fn view(&self) -> ActionModel {
        match self {
            MenuAction::Quit => ActionModel::Quit,
            MenuAction::Switch { control_port, session_id, provider, model } => {
                ActionModel::Switch {
                    control_port: *control_port,
                    session_id: session_id@,
                    provider: provider@,
                    model: model@,
                }
            },
            MenuAction::Revert { control_port, session_id } => {
                ActionModel::Revert { control_port: *control_port, session_id: session_id@ }
            },
            MenuAction::Ignore => ActionModel::Ignore,
        }
    }
}

/// Where a clicked identifier routes: strip the uniqueness suffix, split on
/// `:`, then decide by tag and field count. A `quit` tag quits at any field
/// count; `switch` needs exactly five fields and `revert` exactly three;
/// everything else is ignored.
pub open spec fn dispatch_spec(id: Seq<char>) -> ActionModel {
    let parts = split_colon(strip_spec(id));
    if parts[0] == "quit"@ {
        ActionModel::Quit
    } else if parts[0] == "switch"@ && parts.len() == 5 {
        ActionModel::Switch {
            control_port: parse_port_spec(parts[1]),
            session_id: parts[2],
            provider: parts[3],
            model: parts[4],
        }
    } else if parts[0] == "revert"@ && parts.len() == 3 {
        ActionModel::Revert { control_port: parse_port_spec(parts[1]), session_id: parts[2] }
    } else {
        ActionModel::Ignore
    }
}

/// A digit is neither a colon nor a plus sign.
proof fn lemma_digits_plain(s: Seq<char>)
    requires
        all_digits(s),
    ensures
        forall|j: int| 0 <= j < s.len() ==> s[j] != ':',
        s.len() > 0 ==> s[0] != '+',
{
    assert forall|j: int| 0 <= j < s.len() implies s[j] != ':' by {
        assert(is_digit(s[j]));
        assert(':' as u32 == 58);
    }
    if s.len() > 0 {
        assert(is_digit(s[0]));
        assert('+' as u32 == 43);
    }
}

/// Splitting takes the first colon-free run off the front.
proof fn lemma_split_step(a: Seq<char>, rest: Seq<char>)
    requires
        forall|j: int| 0 <= j < a.len() ==> a[j] != ':',
    ensures
        split_colon(a + ":"@ + rest) == seq![a] + split_colon(rest),
{
    reveal_strlit(":");
    let s = a + ":"@ + rest;
    assert(s[a.len() as int] == ':');
    lemma_first_occurrence_at(s, ':', a.len() as int);
    assert(s.take(a.len() as int) =~= a);
    assert(s.skip(a.len() as int + 1) =~= rest);
}

/// A colon-free string is a single field.
proof fn lemma_split_last(a: Seq<char>)
    requires
        forall|j: int| 0 <= j < a.len() ==> a[j] != ':',
    ensures
        split_colon(a) == seq![a],
{
    lemma_first_occurrence_none(a, ':');
}

/// Parsing the decimal rendering of a port gives the port back.
proof fn lemma_parse_port_dec(p: u16)
    ensures
        parse_port_spec(dec(p as nat)) == p,
{
    lemma_dec_shape(p as nat);
    lemma_dec_val(p as nat);
    lemma_digits_plain(dec(p as nat));
}

/// A quit identifier, under any counter, routes to quitting.
pub proof fn lemma_quit_id_routes(n: nat)
    ensures
        dispatch_spec(uid_spec("quit"@, n)) == ActionModel::Quit,
{
    reveal_strlit("quit");
    lemma_strip_uid("quit"@, n);
    assert forall|j: int| 0 <= j < "quit"@.len() implies "quit"@[j] != ':' by {}
    lemma_split_last("quit"@);
}

/// Routing round trip for switch entries: the identifier a rebuild
/// allocates for a (session, provider, model) pair routes back to exactly
/// the switch call it encodes, under any counter, provided none of the
/// encoded fields contains the separator.
#[verifier::rlimit(60)]
pub proof fn lemma_switch_id_routes(s: SessionInfo, p: CatalogPairModel, n: nat)
    requires
        forall|j: int| 0 <= j < s.session_id@.len() ==> s.session_id@[j] != ':',
        forall|j: int| 0 <= j < p.provider.len() ==> p.provider[j] != ':',
        forall|j: int| 0 <= j < p.model_id.len() ==> p.model_id[j] != ':',
    ensures
        dispatch_spec(uid_spec(switch_action(s, p), n)) == (ActionModel::Switch {
            control_port: s.control_port,
            session_id: s.session_id@,
            provider: p.provider,
            model: p.model_id,
        }),
{
    reveal_strlit("switch:");
    reveal_strlit("switch");
    reveal_strlit("quit");
    reveal_strlit(":");
    lemma_strip_uid(switch_action(s, p), n);
    let d = dec(s.control_port as nat);
    let sid = s.session_id@;
    lemma_dec_shape(s.control_port as nat);
    lemma_digits_plain(d);
    let t3 = p.provider + ":"@ + p.model_id;
    let t2 = sid + ":"@ + t3;
    let t1 = d + ":"@ + t2;
    let t0 = "switch"@ + ":"@ + t1;
    assert(switch_action(s, p) =~= t0);
    assert forall|j: int| 0 <= j < "switch"@.len() implies "switch"@[j] != ':' by {}
    lemma_split_step("switch"@, t1);
    lemma_split_step(d, t2);
    lemma_split_step(sid, t3);
    lemma_split_step(p.provider, p.model_id);
    lemma_split_last(p.model_id);
    let parts = split_colon(switch_action(s, p));
    assert(parts =~= seq!["switch"@, d, sid, p.provider, p.model_id]);
    assert(parts[0] != "quit"@) by {
        assert("switch"@.len() == 6);
        assert("quit"@.len() == 4);
    }
    lemma_parse_port_dec(s.control_port);
}

/// Routing round trip for revert entries: the identifier a rebuild
/// allocates for a switched session's revert entry routes back to exactly
/// the revert call it encodes, under any counter, provided the session
/// identifier contains no separator.
#[verifier::rlimit(60)]
pub proof fn lemma_revert_id_routes(s: SessionInfo, n: nat)
    requires
        forall|j: int| 0 <= j < s.session_id@.len() ==> s.session_id@[j] != ':',
    ensures
        dispatch_spec(uid_spec(revert_action(s), n)) == (ActionModel::Revert {
            control_port: s.control_port,
            session_id: s.session_id@,
        }),
{
    reveal_strlit("revert:");
    reveal_strlit("revert");
    reveal_strlit("switch");
    reveal_strlit("quit");
    reveal_strlit(":");
    lemma_strip_uid(revert_action(s), n);
    let d = dec(s.control_port as nat);
    let sid = s.session_id@;
    lemma_dec_shape(s.control_port as nat);
    lemma_digits_plain(d);
    let t1 = d + ":"@ + sid;
    let t0 = "revert"@ + ":"@ + t1;
    assert(revert_action(s) =~= t0);
    assert forall|j: int| 0 <= j < "revert"@.len() implies "revert"@[j] != ':' by {}
    lemma_split_step("revert"@, t1);
    lemma_split_step(d, sid);
    lemma_split_last(sid);
    let parts = split_colon(revert_action(s));
    assert(parts =~= seq!["revert"@, d, sid]);
    assert(parts[0] != "quit"@) by {
        assert("revert"@.len() == 6);
        assert("quit"@.len() == 4);
    }
    assert(parts[0] != "switch"@) by {
        assert("revert"@[0] == 'r');
        assert("switch"@[0] == 's');
    }
    lemma_parse_port_dec(s.control_port);
}

/// Decode a clicked menu identifier into the action it encodes.
pub fn dispatch(id: &str) -> (a: MenuAction)
    ensures
        a@ == dispatch_spec(id@),
{
    let stripped = strip_counter_suffix(id);
    let parts = split_colon_exec(stripped.as_str());
    proof {
        lemma_split_nonempty(stripped@);
        assert(parts@.map_values(|p: String| p@).len() == parts@.len());
        assert forall|k: int| 0 <= k < parts@.len() implies #[trigger] parts@[k]@ == split_colon(
            strip_spec(id@),
        )[k] by {
            assert(parts@.map_values(|p: String| p@)[k] == parts@[k]@);
        }
    }
    let quit_tag = String::from_str("quit");
    let switch_tag = String::from_str("switch");
    let revert_tag = String::from_str("revert");
    if parts[0] == quit_tag {
        MenuAction::Quit
    } else if parts[0] == switch_tag && parts.len() == 5 {
        MenuAction::Switch {
            control_port: parse_port(parts[1].as_str()),
            session_id: parts[2].clone(),
            provider: parts[3].clone(),
            model: parts[4].clone(),
        }
    } else if parts[0] == revert_tag && parts.len() == 3 {
        MenuAction::Revert {
            control_port: parse_port(parts[1].as_str()),
            session_id: parts[2].clone(),
        }
    } else {
        MenuAction::Ignore
    }
}

} // verus!
