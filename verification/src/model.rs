//! The typed interaction model.
//!
//! An inbound interaction is a tagged variant; only an application command
//! carries data. Command data holds the command name and an ordered list of
//! options, where an option may itself be a subcommand or subcommand group
//! with its own nested options. The dispatch key of command data is the
//! canonical key of the full path: the command name followed by the name of
//! each nested subcommand level, joined by the separator byte.

use vstd::prelude::*;

use crate::command::{join_segments, segment_wf, KEY_SEPARATOR};

verus! {

/// One option of a command invocation: a scalar argument, or a nested
/// subcommand / subcommand group carrying its own options.
pub struct CommandOption {
    pub name: Vec<u8>,
    pub value: OptionValue,
}

/// The value of a command option. Scalar arguments are not read by the
/// router, so their payload is not modelled.
pub enum OptionValue {
    SubCommand(Vec<CommandOption>),
    SubCommandGroup(Vec<CommandOption>),
    Scalar,
}

/// The payload of an application-command interaction: the invoked command's
/// name and its options.
pub struct CommandData {
    pub name: Vec<u8>,
    pub options: Vec<CommandOption>,
}

/// An inbound interaction, classified by its type code.
pub enum Interaction {
    Ping,
    ApplicationCommand(CommandData),
    MessageComponent,
    ApplicationCommandAutocomplete,
    Unknown(u64),
}

impl OptionValue {
    /// Whether this value nests further options.
    pub open spec fn is_nested(self) -> bool {
        match self {
            OptionValue::SubCommand(_) => true,
            OptionValue::SubCommandGroup(_) => true,
            OptionValue::Scalar => false,
        }
    }

    /// The nested options, if any.
    pub open spec fn nested_options(self) -> Seq<CommandOption> {
        match self {
            OptionValue::SubCommand(inner) => inner@,
            OptionValue::SubCommandGroup(inner) => inner@,
            OptionValue::Scalar => Seq::empty(),
        }
    }
}

/// The path segments contributed by the first nested option among
/// `options`: its name, then recursively the segments of its own options.
/// Scalar options contribute nothing.
pub open spec fn nested_segments(options: Seq<CommandOption>) -> Seq<Seq<u8>>
    decreases options,
{
    if options.len() == 0 {
        Seq::empty()
    } else {
        match options[0].value {
            OptionValue::SubCommand(inner) => seq![options[0].name@] + nested_segments(inner@),
            OptionValue::SubCommandGroup(inner) => seq![options[0].name@] + nested_segments(
                inner@,
            ),
            OptionValue::Scalar => nested_segments(options.drop_first()),
        }
    }
}

impl CommandData {
    /// The full path segments of this invocation: the command name, then
    /// the nested subcommand-group / subcommand names.
    pub open spec fn path_segments(self) -> Seq<Seq<u8>> {
        seq![self.name@] + nested_segments(self.options@)
    }

    /// The canonical dispatch key of this invocation.
    pub open spec fn key_spec(self) -> Seq<u8> {
        join_segments(self.path_segments())
    }

    /// Well-formed command data: every name along the path structure is a
    /// valid command name (non-empty, free of the separator byte).
    pub open spec fn wf(self) -> bool {
        segment_wf(self.name@) && options_wf(self.options@)
    }
}

/// Every option name is a valid command name, recursively.
pub open spec fn options_wf(options: Seq<CommandOption>) -> bool
    decreases options,
{
    if options.len() == 0 {
        true
    } else {
        &&& segment_wf(options[0].name@)
        &&& match options[0].value {
            OptionValue::SubCommand(inner) => options_wf(inner@),
            OptionValue::SubCommandGroup(inner) => options_wf(inner@),
            OptionValue::Scalar => true,
        }
        &&& options_wf(options.drop_first())
    }
}

/// The well-formedness of one option: its own name and, recursively, the
/// names under its value.
pub open spec fn option_wf(option: CommandOption) -> bool {
    &&& segment_wf(option.name@)
    &&& match option.value {
        OptionValue::SubCommand(inner) => options_wf(inner@),
        OptionValue::SubCommandGroup(inner) => options_wf(inner@),
        OptionValue::Scalar => true,
    }
}

/// An option list is well-formed exactly when each of its options is.
pub proof fn lemma_options_wf_push(options: Seq<CommandOption>, option: CommandOption)
    requires
        options_wf(options),
        option_wf(option),
    ensures
        options_wf(options.push(option)),
    decreases options.len(),
{
    let p = options.push(option);
    if options.len() == 0 {
        assert(p[0] == option);
        assert(p.drop_first() =~= Seq::<CommandOption>::empty());
        assert(options_wf(Seq::<CommandOption>::empty()));
        assert(segment_wf(p[0].name@) && match p[0].value {
            OptionValue::SubCommand(inner) => options_wf(inner@),
            OptionValue::SubCommandGroup(inner) => options_wf(inner@),
            OptionValue::Scalar => true,
        });
    } else {
        lemma_options_wf_push(options.drop_first(), option);
        assert(p[0] == options[0]);
        assert(p.drop_first() =~= options.drop_first().push(option));
        assert(segment_wf(p[0].name@) && match p[0].value {
            OptionValue::SubCommand(inner) => options_wf(inner@),
            OptionValue::SubCommandGroup(inner) => options_wf(inner@),
            OptionValue::Scalar => true,
        });
        assert(options_wf(p.drop_first()));
    }
}

impl Interaction {
    /// Well-formed interactions carry well-formed command data.
    pub open spec fn wf(self) -> bool {
        match self {
            Interaction::ApplicationCommand(data) => data.wf(),
            _ => true,
        }
    }
}

/// Appends, for each nested path segment, the separator byte and the
/// segment, to `key`.
fn append_nested(options: &Vec<CommandOption>, key: &mut Vec<u8>)
    ensures
        final(key)@ == old(key)@ + tail_bytes(nested_segments(options@)),
    decreases options@,
{
    let ghost key0 = key@;
    let n = options.len();
    let mut i: usize = 0;
    proof {
        assert(options@.skip(0) =~= options@);
    }
    while i < n
        invariant
            n == options.len(),
            i <= n,
            key@ == key0,
            key0 == old(key)@,
            forall|j: int| 0 <= j < i ==> !(#[trigger] options@[j].value.is_nested()),
            nested_segments(options@.skip(i as int)) == nested_segments(options@),
        decreases n - i,
    {
        let opt = &options[i];
        let nested = match &opt.value {
            OptionValue::SubCommand(inner) => Some(inner),
            OptionValue::SubCommandGroup(inner) => Some(inner),
            OptionValue::Scalar => None,
        };
        match nested {
            Some(inner) => {
                key.push(KEY_SEPARATOR);
                key.extend_from_slice(opt.name.as_slice());
                proof {
                    assert(options@.skip(i as int)[0] == options@[i as int]);
                    assert(nested_segments(options@.skip(i as int)) == seq![opt.name@]
                        + nested_segments(inner@));
                    assert(key@ =~= key0 + seq![KEY_SEPARATOR] + opt.name@);
                }
                append_nested(inner, key);
                proof {
                    let rest = nested_segments(inner@);
                    assert((seq![opt.name@] + rest).drop_first() =~= rest);
                    assert((seq![opt.name@] + rest)[0] == opt.name@);
                    assert(tail_bytes(nested_segments(options@)) == seq![KEY_SEPARATOR]
                        + opt.name@ + tail_bytes(rest));
                    assert(key@ =~= key0 + tail_bytes(nested_segments(options@)));
                }
                return ;
            },
            None => {
                proof {
                    assert(options@.skip(i as int)[0] == options@[i as int]);
                    assert(options@.skip(i as int).drop_first() =~= options@.skip(i as int + 1));
                }
                i = i + 1;
            },
        }
    }
    proof {
        assert(options@.skip(n as int) =~= Seq::<CommandOption>::empty());
        assert(key@ =~= key0 + tail_bytes(nested_segments(options@)));
    }
}

/// The bytes a segment sequence adds after an existing first segment: a
/// separator byte before each segment.
pub open spec fn tail_bytes(segs: Seq<Seq<u8>>) -> Seq<u8>
    decreases segs.len(),
{
    if segs.len() == 0 {
        Seq::empty()
    } else {
        seq![KEY_SEPARATOR] + segs[0] + tail_bytes(segs.drop_first())
    }
}

/// Joining segments equals the first segment followed by its tail bytes.
proof fn lemma_join_as_tail(segs: Seq<Seq<u8>>)
    requires
        segs.len() >= 1,
    ensures
        join_segments(segs) == segs[0] + tail_bytes(segs.drop_first()),
    decreases segs.len(),
{
    if segs.len() == 1 {
        assert(join_segments(segs) =~= segs[0] + tail_bytes(segs.drop_first()));
    } else {
        lemma_join_as_tail(segs.drop_first());
        assert(join_segments(segs) =~= segs[0] + tail_bytes(segs.drop_first()));
    }
}

impl CommandData {
    /// Computes the canonical dispatch key of this invocation: the command
    /// name and each nested subcommand name, joined by the separator byte.
    pub fn dispatch_key(&self) -> (key: Vec<u8>)
        ensures
            key@ == self.key_spec(),
    {
        let mut key: Vec<u8> = Vec::new();
        key.extend_from_slice(self.name.as_slice());
        proof {
            assert(key@ =~= self.name@);
        }
        append_nested(&self.options, &mut key);
        proof {
            lemma_join_as_tail(self.path_segments());
            assert(self.path_segments()[0] == self.name@);
            assert(self.path_segments().drop_first() =~= nested_segments(self.options@));
            assert(key@ =~= self.key_spec());
        }
        key
    }
}

} // verus!
