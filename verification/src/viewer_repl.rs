//! The standalone viewer's command line: a pair of channels into the render
//! loop (one for the allocation index to highlight, one to terminate), and
//! the command parser that drives them.
use crate::strings::{
    after_first_space, first_token, is_i64_numeral, is_space, parse_i64, spec_trim,
    split_first_token, str_eq, trim_str,
};
use vstd::prelude::*;

verus! {

/// The viewer command line's help message.
pub open spec fn help_message() -> Seq<char> {
    "\nAvailable commands:\n    --show <alloc_idx>  : show the mesh with the given index\n    --help              : show this help message\n    --quit              : quit viewer\n"@
}

/// Build the viewer command line's help message.
pub fn help_message_text() -> (r: String)
    ensures
        r@ == help_message(),
{
    String::from_str(
        "\nAvailable commands:\n    --show <alloc_idx>  : show the mesh with the given index\n    --help              : show this help message\n    --quit              : quit viewer\n",
    )
}

/// Relies on `std::sync::mpsc::Sender` as an opaque channel endpoint.
#[verifier::external_type_specification]
#[verifier::external_body]
#[verifier::reject_recursive_types(T)]
pub struct ExSender<T>(std::sync::mpsc::Sender<T>);

/// Relies on `std::sync::mpsc::Receiver` as an opaque channel endpoint.
#[verifier::external_type_specification]
#[verifier::external_body]
#[verifier::reject_recursive_types(T)]
pub struct ExReceiver<T>(std::sync::mpsc::Receiver<T>);

/// Relies on `std::sync::mpsc::channel`: a connected sender/receiver pair.
pub assume_specification<T>[ std::sync::mpsc::channel::<T> ]() -> (r: (
    std::sync::mpsc::Sender<T>,
    std::sync::mpsc::Receiver<T>,
));

/// Relies on `Sender::send` for `i64` payloads; whether it succeeded
/// depends on the peer, so only the outcome is reported.
#[verifier::external_body]
fn send_i64(sender: &std::sync::mpsc::Sender<i64>, value: i64) -> bool {
    sender.send(value).is_ok()
}

/// The sending halves of the command-line-to-renderer channels.
pub struct CommunicateSender {
    pub alloc_idx: std::sync::mpsc::Sender<i64>,
    pub terminate: std::sync::mpsc::Sender<()>,
}

/// The receiving halves, polled by the render loop.
pub struct CommunicateReceiver {
    pub alloc_idx: std::sync::mpsc::Receiver<i64>,
    pub terminate: std::sync::mpsc::Receiver<()>,
}

/// Create the two channels and split them into their halves.
pub fn make_communicate() -> (CommunicateSender, CommunicateReceiver) {
    let (alloc_sender, alloc_receiver) = std::sync::mpsc::channel();
    let (terminate_sender, terminate_receiver) = std::sync::mpsc::channel();

    let sender = CommunicateSender { alloc_idx: alloc_sender, terminate: terminate_sender };
    let receiver = CommunicateReceiver {
        alloc_idx: alloc_receiver,
        terminate: terminate_receiver,
    };

    (sender, receiver)
}

/// What one line typed at the viewer prompt means.
pub enum ViewerCommand {
    /// Nothing but whitespace.
    Empty,
    /// `--show` with exactly one argument.
    Show(String),
    /// `--show` with a missing or malformed argument list.
    ShowUsage,
    /// `--help`.
    Help,
    /// `--quit`.
    Quit,
    /// Anything else.
    Unknown,
}

/// Classify one line typed at the viewer prompt: trim it, then match the
/// leading token; `--show` takes exactly one further argument.
pub fn classify_viewer_command(line: &str) -> (cmd: ViewerCommand)
    ensures
        ({
            let c = spec_trim(line@);
            match cmd {
                ViewerCommand::Empty => c.len() == 0,
                ViewerCommand::Show(arg) => {
                    &&& first_token(c) == "--show"@
                    &&& arg@ == spec_trim(after_first_space(c))
                    &&& arg@.len() > 0
                    &&& forall|k: int| 0 <= k < arg@.len() ==> !is_space(#[trigger] arg@[k])
                },
                ViewerCommand::ShowUsage => {
                    &&& first_token(c) == "--show"@
                    &&& ({
                        let arg = spec_trim(after_first_space(c));
                        arg.len() == 0 || exists|k: int|
                            0 <= k < arg.len() && is_space(#[trigger] arg[k])
                    })
                },
                ViewerCommand::Help => c.len() > 0 && first_token(c) == "--help"@,
                ViewerCommand::Quit => c.len() > 0 && first_token(c) == "--quit"@,
                ViewerCommand::Unknown => c.len() > 0 && first_token(c) != "--show"@
                    && first_token(c) != "--help"@ && first_token(c) != "--quit"@,
            }
        }),
{
    let trimmed: String = trim_str(line);
    if trimmed.as_str().unicode_len() == 0 {
        return ViewerCommand::Empty;
    }
    let (token, rest) = split_first_token(trimmed.as_str());
    if str_eq(token.as_str(), "--show") {
        let arg: String = match rest {
            Some(r) => trim_str(r.as_str()),
            None => String::new(),
        };
        let an: usize = arg.as_str().unicode_len();
        if an == 0 {
            return ViewerCommand::ShowUsage;
        }
        let mut k: usize = 0;
        while k < an
            invariant
                an == arg@.len(),
                0 <= k <= an,
                first_token(spec_trim(line@)) == "--show"@,
                arg@ == spec_trim(after_first_space(spec_trim(line@))),
                forall|j: int| 0 <= j < k ==> !is_space(#[trigger] arg@[j]),
            decreases an - k,
        {
            if crate::strings::is_space_char(arg.as_str().get_char(k)) {
                proof {
                    let c = spec_trim(line@);
                    let sarg = spec_trim(after_first_space(c));
                    assert(arg@ == sarg);
                    assert(0 <= k < sarg.len() && is_space(sarg[k as int]));
                }
                return ViewerCommand::ShowUsage;
            }
            k = k + 1;
        }
        proof {
            assert(arg@ == spec_trim(after_first_space(spec_trim(line@))));
        }
        return ViewerCommand::Show(arg);
    }
    if str_eq(token.as_str(), "--help") {
        return ViewerCommand::Help;
    }
    if str_eq(token.as_str(), "--quit") {
        return ViewerCommand::Quit;
    }
    ViewerCommand::Unknown
}

/// The viewer command line: holds the sending channel halves.
pub struct Repl {
    pub sender: CommunicateSender,
}

impl Repl {
    /// Wrap the sending halves.
    pub fn new(sender: CommunicateSender) -> (r: Repl)
        ensures
            r.sender == sender,
    {
        Repl { sender }
    }

    /// Handle `--show` arguments: with exactly one argument that parses as
    /// an index, send it to the render loop; reject anything else with a
    /// usage or parse error. Whether a well-formed send is delivered
    /// depends on the peer.
    pub fn show(&self, args: &Vec<String>) -> (r: Result<(), String>)
        ensures
            args@.len() != 1 ==> r is Err,
            args@.len() == 1 && !is_i64_numeral(args@[0]@) ==> r is Err,
    {
        if args.len() != 1 {
            return Err(String::from_str("Usage: --show <alloc_idx>"));
        }
        let parsed: Option<i64> = parse_i64(args[0].as_str());
        match parsed {
            Some(idx) => {
                if send_i64(&self.sender.alloc_idx, idx) {
                    Ok(())
                } else {
                    Err(String::from_str("renderer channel closed"))
                }
            },
            None => Err(String::from_str("invalid allocation index")),
        }
    }
}

} // verus!
