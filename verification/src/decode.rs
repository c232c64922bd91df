//! Envelope decoding.
//!
//! Authenticated body bytes are decoded into a typed [`Interaction`]. The
//! JSON parse itself is done by an outside crate and is deterministic in
//! the bytes alone, so its results are named: the parsed document and what
//! each accessor reads from it. The walk over the parsed tree —
//! classification by type code, extraction of the command name and of the
//! recursive subcommand options — is verified against those names. A
//! decode failure is reported, never fatal.

use vstd::prelude::*;

use crate::command::{segment_ok, segment_wf};
use crate::model::{option_wf, options_wf, CommandData, CommandOption, Interaction, OptionValue};
use crate::model::lemma_options_wf_push;

verus! {

/// Interaction type code: ping.
pub const INTERACTION_KIND_PING: u64 = 1;

/// Interaction type code: application command.
pub const INTERACTION_KIND_COMMAND: u64 = 2;

/// Interaction type code: message component.
pub const INTERACTION_KIND_COMPONENT: u64 = 3;

/// Interaction type code: application command autocomplete.
pub const INTERACTION_KIND_AUTOCOMPLETE: u64 = 4;

/// Option type code: subcommand.
pub const OPTION_KIND_SUBCOMMAND: u64 = 1;

/// Option type code: subcommand group.
pub const OPTION_KIND_SUBCOMMAND_GROUP: u64 = 2;

/// Deeper option nesting than this is rejected as malformed. The platform
/// nests at most two levels; the JSON parser itself stops at 128.
pub const MAX_OPTION_DEPTH: u64 = 128;

#[verifier::external_type_specification]
#[verifier::external_body]
pub struct ExJsonValue(serde_json::Value);

/// Whether the bytes parse as one JSON document. The parse is a function
/// of the bytes alone.
pub uninterp spec fn json_parses(bytes: Seq<u8>) -> bool;

/// The document the bytes parse to, when they parse.
pub uninterp spec fn json_doc(bytes: Seq<u8>) -> serde_json::Value;

/// The value under a key of a JSON value, if it is an object holding that
/// key.
pub uninterp spec fn json_field(v: serde_json::Value, key: Seq<char>) -> Option<serde_json::Value>;

/// The value as an unsigned 64-bit integer, if it is one.
pub uninterp spec fn json_u64_of(v: serde_json::Value) -> Option<u64>;

/// The value as a string, if it is one, as its UTF-8 bytes.
pub uninterp spec fn json_str_of(v: serde_json::Value) -> Option<Seq<u8>>;

/// The value's elements, if it is an array.
pub uninterp spec fn json_elems_of(v: serde_json::Value) -> Option<Seq<serde_json::Value>>;

/// Relies on serde_json::from_slice: parses the bytes as a JSON document,
/// or fails on malformed input; the result depends on the bytes alone.
#[verifier::external_body]
fn json_parse(body: &Vec<u8>) -> (r: Option<serde_json::Value>)
    ensures
        (r is Some) == json_parses(body@),
        r matches Some(v) ==> v == json_doc(body@),
{
    serde_json::from_slice(body.as_slice()).ok()
}

/// Relies on serde_json::Value::get: the value under a key of a JSON
/// object, if the value is an object holding that key.
#[verifier::external_body]
fn json_get<'a>(v: &'a serde_json::Value, key: &str) -> (r: Option<&'a serde_json::Value>)
    ensures
        match r {
            Some(f) => json_field(*v, key@) == Some(*f),
            None => json_field(*v, key@) is None,
        },
{
    v.get(key)
}

/// Relies on serde_json::Value::as_u64: the value as an unsigned integer,
/// if it is one.
#[verifier::external_body]
fn json_as_u64(v: &serde_json::Value) -> (r: Option<u64>)
    ensures
        r == json_u64_of(*v),
{
    v.as_u64()
}

/// Relies on serde_json::Value::as_str: the value as a string, if it is
/// one, handed on as its UTF-8 bytes.
#[verifier::external_body]
fn json_str_bytes(v: &serde_json::Value) -> (r: Option<Vec<u8>>)
    ensures
        match r {
            Some(b) => json_str_of(*v) == Some(b@),
            None => json_str_of(*v) is None,
        },
{
    v.as_str().map(|s| s.as_bytes().to_vec())
}

/// Relies on serde_json::Value::as_array: the value's elements, if it is an
/// array.
#[verifier::external_body]
fn json_as_array<'a>(v: &'a serde_json::Value) -> (r: Option<&'a Vec<serde_json::Value>>)
    ensures
        match r {
            Some(a) => json_elems_of(*v) == Some(a@),
            None => json_elems_of(*v) is None,
        },
{
    v.as_array()
}

/// The name a JSON option or command object carries: the string under its
/// `name` key.
pub open spec fn name_of(v: serde_json::Value) -> Option<Seq<u8>> {
    match json_field(v, "name"@) {
        Some(nv) => json_str_of(nv),
        None => None,
    }
}

/// The type code a JSON object carries: the unsigned integer under its
/// `type` key.
pub open spec fn kind_of(v: serde_json::Value) -> Option<u64> {
    match json_field(v, "type"@) {
        Some(kv) => json_u64_of(kv),
        None => None,
    }
}

/// Whether one JSON option decodes: a valid name, a type code, and — for a
/// subcommand or subcommand group — remaining depth and a decodable nested
/// option list (an absent list stands for no options).
pub open spec fn option_ok(e: serde_json::Value, depth: nat) -> bool
    decreases depth, 0int, 0int,
{
    &&& match name_of(e) {
        Some(s) => segment_wf(s),
        None => false,
    }
    &&& match kind_of(e) {
        Some(kind) => if kind == OPTION_KIND_SUBCOMMAND || kind == OPTION_KIND_SUBCOMMAND_GROUP {
            depth > 0 && match json_field(e, "options"@) {
                Some(ov) => match json_elems_of(ov) {
                    Some(inner) => options_list_ok(inner, (depth - 1) as nat),
                    None => false,
                },
                None => true,
            }
        } else {
            true
        },
        None => false,
    }
}

/// Whether every element of a JSON option list decodes.
pub open spec fn options_list_ok(elems: Seq<serde_json::Value>, depth: nat) -> bool
    decreases depth, 1int, elems.len(),
{
    elems.len() == 0 || (option_ok(elems[0], depth) && options_list_ok(
        elems.drop_first(),
        depth,
    ))
}

/// Whether the JSON value is an array whose elements all decode.
pub open spec fn options_ok(v: serde_json::Value, depth: nat) -> bool {
    match json_elems_of(v) {
        Some(elems) => options_list_ok(elems, depth),
        None => false,
    }
}

/// Whether `opt` is the decoding of the JSON option `e`: same name, the
/// variant its type code demands, and — for a nested variant — remaining
/// depth and its option list decoded elementwise (an absent list decodes
/// to no options).
pub open spec fn option_matches(e: serde_json::Value, opt: CommandOption, depth: nat) -> bool
    decreases depth, 0int, 0int,
{
    &&& name_of(e) == Some(opt.name@)
    &&& match kind_of(e) {
        Some(kind) => if kind == OPTION_KIND_SUBCOMMAND {
            opt.value matches OptionValue::SubCommand(inner) && depth > 0 && match json_field(
                e,
                "options"@,
            ) {
                Some(ov) => match json_elems_of(ov) {
                    Some(ie) => options_list_match(ie, inner@, (depth - 1) as nat),
                    None => false,
                },
                None => inner@.len() == 0,
            }
        } else if kind == OPTION_KIND_SUBCOMMAND_GROUP {
            opt.value matches OptionValue::SubCommandGroup(inner) && depth > 0 && match json_field(
                e,
                "options"@,
            ) {
                Some(ov) => match json_elems_of(ov) {
                    Some(ie) => options_list_match(ie, inner@, (depth - 1) as nat),
                    None => false,
                },
                None => inner@.len() == 0,
            }
        } else {
            opt.value is Scalar
        },
        None => false,
    }
}

/// Whether `opts` is the elementwise decoding of the JSON option list
/// `elems`.
pub open spec fn options_list_match(
    elems: Seq<serde_json::Value>,
    opts: Seq<CommandOption>,
    depth: nat,
) -> bool
    decreases depth, 1int, elems.len(),
{
    &&& opts.len() == elems.len()
    &&& (elems.len() == 0 || (option_matches(elems[0], opts[0], depth) && options_list_match(
        elems.drop_first(),
        opts.drop_first(),
        depth,
    )))
}

/// Whether the JSON value is an array whose elements decode elementwise to
/// `opts`.
pub open spec fn options_match(v: serde_json::Value, opts: Seq<CommandOption>, depth: nat) -> bool {
    match json_elems_of(v) {
        Some(elems) => options_list_match(elems, opts, depth),
        None => false,
    }
}

/// A list with one element that does not decode does not decode.
proof fn lemma_list_ok_bad(elems: Seq<serde_json::Value>, j: int, depth: nat)
    requires
        0 <= j < elems.len(),
        !option_ok(elems[j], depth),
    ensures
        !options_list_ok(elems, depth),
    decreases j,
{
    if j == 0 {
        assert(!options_list_ok(elems, depth));
    } else {
        lemma_list_ok_bad(elems.drop_first(), j - 1, depth);
        assert(elems.drop_first()[j - 1] == elems[j]);
        assert(!options_list_ok(elems, depth));
    }
}

/// A decoded element extends a decoded list.
proof fn lemma_list_ok_push(elems: Seq<serde_json::Value>, e: serde_json::Value, depth: nat)
    requires
        options_list_ok(elems, depth),
        option_ok(e, depth),
    ensures
        options_list_ok(elems.push(e), depth),
    decreases elems.len(),
{
    if elems.len() == 0 {
        assert(elems.push(e)[0] == e);
        assert(elems.push(e).drop_first() =~= Seq::<serde_json::Value>::empty());
        assert(options_list_ok(Seq::<serde_json::Value>::empty(), depth));
    } else {
        if !option_ok(elems[0], depth) || !options_list_ok(elems.drop_first(), depth) {
            assert(!options_list_ok(elems, depth));
        }
        lemma_list_ok_push(elems.drop_first(), e, depth);
        assert(elems.push(e)[0] == elems[0]);
        assert(elems.push(e).drop_first() =~= elems.drop_first().push(e));
    }
}

/// A matching element extends a matching list.
proof fn lemma_list_match_push(
    elems: Seq<serde_json::Value>,
    e: serde_json::Value,
    opts: Seq<CommandOption>,
    opt: CommandOption,
    depth: nat,
)
    requires
        options_list_match(elems, opts, depth),
        option_matches(e, opt, depth),
    ensures
        options_list_match(elems.push(e), opts.push(opt), depth),
    decreases elems.len(),
{
    if elems.len() == 0 {
        assert(elems.push(e)[0] == e);
        assert(opts.push(opt)[0] == opt);
        assert(elems.push(e).drop_first() =~= Seq::<serde_json::Value>::empty());
        assert(opts.push(opt).drop_first() =~= Seq::<CommandOption>::empty());
        assert(options_list_match(
            Seq::<serde_json::Value>::empty(),
            Seq::<CommandOption>::empty(),
            depth,
        ));
    } else {
        if !option_matches(elems[0], opts[0], depth) || !options_list_match(
            elems.drop_first(),
            opts.drop_first(),
            depth,
        ) {
            assert(!options_list_match(elems, opts, depth));
        }
        lemma_list_match_push(elems.drop_first(), e, opts.drop_first(), opt, depth);
        assert(elems.push(e)[0] == elems[0]);
        assert(opts.push(opt)[0] == opts[0]);
        assert(elems.push(e).drop_first() =~= elems.drop_first().push(e));
        assert(opts.push(opt).drop_first() =~= opts.drop_first().push(opt));
    }
}

/// The nested path segments a JSON option list contributes: the name of
/// its first subcommand / subcommand-group element, then recursively the
/// segments of that element's own list.
pub open spec fn nested_segs(elems: Seq<serde_json::Value>, depth: nat) -> Seq<Seq<u8>>
    decreases depth, elems.len(),
{
    if elems.len() == 0 {
        Seq::empty()
    } else {
        match kind_of(elems[0]) {
            Some(kind) => if kind == OPTION_KIND_SUBCOMMAND || kind
                == OPTION_KIND_SUBCOMMAND_GROUP {
                let nm = match name_of(elems[0]) {
                    Some(s) => s,
                    None => Seq::empty(),
                };
                let rest = if depth > 0 {
                    match json_field(elems[0], "options"@) {
                        Some(ov) => match json_elems_of(ov) {
                            Some(ie) => nested_segs(ie, (depth - 1) as nat),
                            None => Seq::empty(),
                        },
                        None => Seq::empty(),
                    }
                } else {
                    Seq::empty()
                };
                seq![nm] + rest
            } else {
                nested_segs(elems.drop_first(), depth)
            },
            None => nested_segs(elems.drop_first(), depth),
        }
    }
}

/// An elementwise decoding yields exactly the nested path segments the
/// JSON option list denotes.
pub proof fn lemma_match_nested_segments(
    elems: Seq<serde_json::Value>,
    opts: Seq<CommandOption>,
    depth: nat,
)
    requires
        options_list_match(elems, opts, depth),
    ensures
        crate::model::nested_segments(opts) == nested_segs(elems, depth),
    decreases depth, elems.len(),
{
    if elems.len() == 0 {
        if opts.len() != 0 {
            assert(!options_list_match(elems, opts, depth));
        }
        assert(crate::model::nested_segments(opts) =~= nested_segs(elems, depth));
    } else {
        if !option_matches(elems[0], opts[0], depth) || !options_list_match(
            elems.drop_first(),
            opts.drop_first(),
            depth,
        ) || opts.len() != elems.len() {
            assert(!options_list_match(elems, opts, depth));
        }
        assert(option_matches(elems[0], opts[0], depth));
        match kind_of(elems[0]) {
            Some(kind) => {
                if kind == OPTION_KIND_SUBCOMMAND || kind == OPTION_KIND_SUBCOMMAND_GROUP {
                    assert(name_of(elems[0]) == Some(opts[0].name@));
                    let inner = match opts[0].value {
                        OptionValue::SubCommand(inner) => inner,
                        OptionValue::SubCommandGroup(inner) => inner,
                        OptionValue::Scalar => arbitrary(),
                    };
                    assert(!(opts[0].value is Scalar));
                    assert(depth > 0);
                    match json_field(elems[0], "options"@) {
                        Some(ov) => {
                            match json_elems_of(ov) {
                                Some(ie) => {
                                    assert(options_list_match(ie, inner@, (depth - 1) as nat));
                                    lemma_match_nested_segments(ie, inner@, (depth - 1) as nat);
                                },
                                None => {
                                    assert(false);
                                },
                            }
                        },
                        None => {
                            assert(inner@.len() == 0);
                            assert(crate::model::nested_segments(inner@)
                                =~= Seq::<Seq<u8>>::empty());
                        },
                    }
                    assert(crate::model::nested_segments(opts) =~= nested_segs(elems, depth));
                } else {
                    assert(opts[0].value is Scalar);
                    lemma_match_nested_segments(elems.drop_first(), opts.drop_first(), depth);
                    assert(crate::model::nested_segments(opts) =~= nested_segs(elems, depth));
                }
            },
            None => {
                assert(false);
            },
        }
    }
}

/// The canonical dispatch key the body bytes denote: the command name
/// under the `data` object, then the nested subcommand names, joined by
/// the separator byte. Meaningful when the bytes decode to an application
/// command.
pub open spec fn decoded_key(bytes: Seq<u8>) -> Seq<u8> {
    let dv = json_field(json_doc(bytes), "data"@)->Some_0;
    let nm = name_of(dv)->Some_0;
    let nested = match json_field(dv, "options"@) {
        Some(ov) => match json_elems_of(ov) {
            Some(ie) => nested_segs(ie, MAX_OPTION_DEPTH as nat),
            None => Seq::empty(),
        },
        None => Seq::empty(),
    };
    crate::command::join_segments(seq![nm] + nested)
}

/// Decoded command data carries exactly the dispatch key the body bytes
/// denote.
pub proof fn lemma_data_matches_key(bytes: Seq<u8>, data: CommandData)
    requires
        json_field(json_doc(bytes), "data"@) is Some,
        data_matches(json_field(json_doc(bytes), "data"@)->Some_0, data),
    ensures
        data.key_spec() == decoded_key(bytes),
{
    let dv = json_field(json_doc(bytes), "data"@)->Some_0;
    assert(name_of(dv) == Some(data.name@));
    let nested = match json_field(dv, "options"@) {
        Some(ov) => match json_elems_of(ov) {
            Some(ie) => nested_segs(ie, MAX_OPTION_DEPTH as nat),
            None => Seq::empty(),
        },
        None => Seq::empty(),
    };
    match json_field(dv, "options"@) {
        Some(ov) => {
            assert(options_match(ov, data.options@, MAX_OPTION_DEPTH as nat));
            match json_elems_of(ov) {
                Some(ie) => {
                    lemma_match_nested_segments(ie, data.options@, MAX_OPTION_DEPTH as nat);
                },
                None => {
                    assert(false);
                },
            }
        },
        None => {
            assert(data.options@.len() == 0);
            assert(crate::model::nested_segments(data.options@) =~= Seq::<Seq<u8>>::empty());
        },
    }
    assert(data.path_segments() =~= seq![name_of(dv)->Some_0] + nested);
}

/// Whether the data object of an application command decodes: a valid
/// name and a decodable option list (an absent list stands for no
/// options).
pub open spec fn data_ok(dv: serde_json::Value) -> bool {
    &&& match name_of(dv) {
        Some(s) => segment_wf(s),
        None => false,
    }
    &&& match json_field(dv, "options"@) {
        Some(ov) => options_ok(ov, MAX_OPTION_DEPTH as nat),
        None => true,
    }
}

/// Whether `data` is the decoding of the data object `dv`.
pub open spec fn data_matches(dv: serde_json::Value, data: CommandData) -> bool {
    &&& name_of(dv) == Some(data.name@)
    &&& match json_field(dv, "options"@) {
        Some(ov) => options_match(ov, data.options@, MAX_OPTION_DEPTH as nat),
        None => data.options@.len() == 0,
    }
}

/// Whether the body bytes decode to an interaction: they parse, carry an
/// unsigned type code, and — for an application command — a decodable data
/// object. An unrecognized code still decodes (to the unknown variant).
pub open spec fn decode_ok(bytes: Seq<u8>) -> bool {
    &&& json_parses(bytes)
    &&& match kind_of(json_doc(bytes)) {
        Some(kind) => if kind == INTERACTION_KIND_COMMAND {
            match json_field(json_doc(bytes), "data"@) {
                Some(dv) => data_ok(dv),
                None => false,
            }
        } else {
            true
        },
        None => false,
    }
}

/// Whether `interaction` is the decoding of the body bytes: the variant
/// its type code demands, with the command data decoded from the `data`
/// object.
pub open spec fn interaction_matches(bytes: Seq<u8>, interaction: Interaction) -> bool {
    match kind_of(json_doc(bytes)) {
        Some(kind) => if kind == INTERACTION_KIND_PING {
            interaction is Ping
        } else if kind == INTERACTION_KIND_COMMAND {
            match json_field(json_doc(bytes), "data"@) {
                Some(dv) => interaction matches Interaction::ApplicationCommand(data)
                    && data_matches(dv, data),
                None => false,
            }
        } else if kind == INTERACTION_KIND_COMPONENT {
            interaction is MessageComponent
        } else if kind == INTERACTION_KIND_AUTOCOMPLETE {
            interaction is ApplicationCommandAutocomplete
        } else {
            interaction matches Interaction::Unknown(code) && code == kind
        },
        None => false,
    }
}

/// Reads a command or option name: a JSON string that is a valid command
/// name (non-empty, free of the separator byte).
fn parse_name(v: &serde_json::Value) -> (r: Option<Vec<u8>>)
    ensures
        match r {
            Some(name) => name_of(*v) == Some(name@) && segment_wf(name@),
            None => match name_of(*v) {
                Some(s) => !segment_wf(s),
                None => true,
            },
        },
{
    let name_value = match json_get(v, "name") {
        Some(n) => n,
        None => {
            return None;
        },
    };
    let name = match json_str_bytes(name_value) {
        Some(b) => b,
        None => {
            return None;
        },
    };
    if segment_ok(&name) {
        Some(name)
    } else {
        None
    }
}

/// Reads an option list: each element needs a name and a type code; type
/// codes for subcommand and subcommand group carry their own nested
/// options, read recursively down to the depth bound.
fn parse_options(v: &serde_json::Value, depth: u64) -> (r: Option<Vec<CommandOption>>)
    ensures
        (r is Some) == options_ok(*v, depth as nat),
        r matches Some(options) ==> options_wf(options@) && options_match(
            *v,
            options@,
            depth as nat,
        ),
    decreases depth,
{
    let elements = match json_as_array(v) {
        Some(a) => a,
        None => {
            return None;
        },
    };
    let n = elements.len();
    let mut out: Vec<CommandOption> = Vec::new();
    let mut i: usize = 0;
    proof {
        assert(elements@.take(0) =~= Seq::<serde_json::Value>::empty());
        assert(options_list_ok(Seq::<serde_json::Value>::empty(), depth as nat));
        assert(options_list_match(
            Seq::<serde_json::Value>::empty(),
            Seq::<CommandOption>::empty(),
            depth as nat,
        ));
    }
    while i < n
        invariant
            n == elements.len(),
            json_elems_of(*v) == Some(elements@),
            i <= n,
            out@.len() == i,
            options_wf(out@),
            options_list_ok(elements@.take(i as int), depth as nat),
            options_list_match(elements@.take(i as int), out@, depth as nat),
        decreases n - i,
    {
        let element = &elements[i];
        let name = match parse_name(element) {
            Some(b) => b,
            None => {
                proof {
                    assert(!option_ok(elements@[i as int], depth as nat));
                    lemma_list_ok_bad(elements@, i as int, depth as nat);
                }
                return None;
            },
        };
        let kind = match json_get(element, "type") {
            Some(k) => match json_as_u64(k) {
                Some(c) => c,
                None => {
                    proof {
                        assert(!option_ok(elements@[i as int], depth as nat));
                        lemma_list_ok_bad(elements@, i as int, depth as nat);
                    }
                    return None;
                },
            },
            None => {
                proof {
                    assert(!option_ok(elements@[i as int], depth as nat));
                    lemma_list_ok_bad(elements@, i as int, depth as nat);
                }
                return None;
            },
        };
        let value = if kind == OPTION_KIND_SUBCOMMAND || kind == OPTION_KIND_SUBCOMMAND_GROUP {
            if depth == 0 {
                proof {
                    assert(!option_ok(elements@[i as int], depth as nat));
                    lemma_list_ok_bad(elements@, i as int, depth as nat);
                }
                return None;
            }
            let nested = match json_get(element, "options") {
                Some(inner) => match parse_options(inner, depth - 1) {
                    Some(opts) => opts,
                    None => {
                        proof {
                            assert(!option_ok(elements@[i as int], depth as nat));
                            lemma_list_ok_bad(elements@, i as int, depth as nat);
                        }
                        return None;
                    },
                },
                None => Vec::new(),
            };
            if kind == OPTION_KIND_SUBCOMMAND {
                OptionValue::SubCommand(nested)
            } else {
                OptionValue::SubCommandGroup(nested)
            }
        } else {
            OptionValue::Scalar
        };
        let option = CommandOption { name, value };
        proof {
            assert(options_wf(Seq::<CommandOption>::empty()));
            assert(options_list_match(
                Seq::<serde_json::Value>::empty(),
                Seq::<CommandOption>::empty(),
                (depth - 1) as nat,
            ));
            assert(option_wf(option));
            assert(option_ok(elements@[i as int], depth as nat));
            assert(option_matches(elements@[i as int], option, depth as nat));
            lemma_options_wf_push(out@, option);
            lemma_list_ok_push(elements@.take(i as int), elements@[i as int], depth as nat);
            lemma_list_match_push(
                elements@.take(i as int),
                elements@[i as int],
                out@,
                option,
                depth as nat,
            );
            assert(elements@.take(i as int).push(elements@[i as int]) =~= elements@.take(
                i as int + 1,
            ));
        }
        out.push(option);
        i = i + 1;
    }
    proof {
        assert(elements@.take(n as int) =~= elements@);
    }
    Some(out)
}

/// Reads the command data of an application-command interaction: its name
/// and its options (an absent option list means no options).
fn parse_command_data(v: &serde_json::Value) -> (r: Option<CommandData>)
    ensures
        (r is Some) == data_ok(*v),
        r matches Some(data) ==> data.wf() && data_matches(*v, data),
{
    let name = match parse_name(v) {
        Some(b) => b,
        None => {
            return None;
        },
    };
    let options = match json_get(v, "options") {
        Some(o) => match parse_options(o, MAX_OPTION_DEPTH) {
            Some(opts) => opts,
            None => {
                return None;
            },
        },
        None => Vec::new(),
    };
    proof {
        assert(options_wf(Seq::<CommandOption>::empty()));
    }
    Some(CommandData { name, options })
}

/// Decodes authenticated body bytes into a typed interaction. Called only
/// after authentication. Succeeds exactly when the bytes decode
/// ([`decode_ok`]): it fails on malformed JSON, a missing or non-integer
/// type code, or — for an application command — missing or invalid command
/// data; an unrecognized type code is not a failure, it decodes to the
/// unknown variant. A decoded interaction is well-formed and is the
/// decoding of the bytes ([`interaction_matches`]).
pub fn decode_interaction(body: &Vec<u8>) -> (r: Option<Interaction>)
    ensures
        (r is Some) == decode_ok(body@),
        r matches Some(interaction) ==> interaction.wf() && interaction_matches(
            body@,
            interaction,
        ),
{
    let v = match json_parse(body) {
        Some(v) => v,
        None => {
            return None;
        },
    };
    let kind = match json_get(&v, "type") {
        Some(k) => match json_as_u64(k) {
            Some(c) => c,
            None => {
                return None;
            },
        },
        None => {
            return None;
        },
    };
    if kind == INTERACTION_KIND_PING {
        Some(Interaction::Ping)
    } else if kind == INTERACTION_KIND_COMMAND {
        let data_value = match json_get(&v, "data") {
            Some(d) => d,
            None => {
                return None;
            },
        };
        match parse_command_data(data_value) {
            Some(data) => Some(Interaction::ApplicationCommand(data)),
            None => None,
        }
    } else if kind == INTERACTION_KIND_COMPONENT {
        Some(Interaction::MessageComponent)
    } else if kind == INTERACTION_KIND_AUTOCOMPLETE {
        Some(Interaction::ApplicationCommandAutocomplete)
    } else {
        Some(Interaction::Unknown(kind))
    }
}

} // verus!
