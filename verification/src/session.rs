//! The per-connection session state machine: the `USER`/`PING`/`PONG`
//! handshake followed by the command-dispatch loop.
//!
//! The machine is a pure step function from a state, a registry, and
//! one received line to the next state, the updated registry, the exact
//! byte strings to write back, and whether the connection closes.  The
//! caller owns the transport: it reads lines, applies steps, writes the
//! outputs, and closes when told to.
//!
//! Delivery is pull, not push: posting to a board never notifies other
//! sessions; a client sees new content only by re-issuing `JOIN`, which
//! replays the whole board.

use vstd::prelude::*;

use crate::command::{Command, CommandModel};
use crate::message::{spec_parse_message, Message, MessageModel};
use crate::registry::{
    lemma_ensure_board_names, lemma_ensure_board_preserves_wf, lemma_join_names,
    lemma_join_preserves_wf, lemma_leave_names, lemma_leave_preserves_wf,
    lemma_post_preserves_wf, marker_seq, Registry, RegistryModel,
};
use crate::strutil::{lemma_first_index_push_found, lemma_first_index_push_new};
use crate::user::{User, UserModel};
use crate::{IrcError, IrcErrorModel};

verus! {

/// The phases of one connection.
#[derive(Debug, Clone, Copy, PartialEq, Eq, Structural)]
pub enum SessionState {
    /// Nothing received yet; the first line must be USER.
    AwaitingUser,
    /// USER accepted and the PING challenge sent; the next line must be
    /// PONG.
    AwaitingPong,
    /// Handshake complete; ordinary commands are dispatched.
    Active,
    /// The connection is finished; no further lines are processed.
    Closed,
}

/// One connection's state.
pub struct Session {
    state: SessionState,
    user_id: u64,
    current_channel: String,
    server_addr: String,
}

/// The mathematical shape of a [`Session`].
#[verifier::ext_equal]
pub ghost struct SessionModel {
    pub state: SessionState,
    pub user_id: u64,
    pub current_channel: Seq<char>,
    pub server_addr: Seq<char>,
}

impl View for Session {
    type V = SessionModel;

    closed spec fn view(&self) -> SessionModel {
        SessionModel {
            state: self.state,
            user_id: self.user_id,
            current_channel: self.current_channel@,
            server_addr: self.server_addr@,
        }
    }
}

/// What one step of the machine produced: the exact strings to write to
/// this client, whether to close the transport, and the error to report,
/// if any.
pub struct StepResult {
    pub outputs: Vec<String>,
    pub close: bool,
    pub error: Option<IrcError>,
}

/// The mathematical shape of one step: the new session, the new
/// registry, and what [`StepResult`] carries.
#[verifier::ext_equal]
pub ghost struct StepModel {
    pub sess: SessionModel,
    pub reg: RegistryModel,
    pub outputs: Seq<Seq<char>>,
    pub close: bool,
    pub error: Option<IrcErrorModel>,
}

/// The view of the optional error of a step.
pub open spec fn err_opt_view(e: Option<IrcError>) -> Option<IrcErrorModel> {
    match e {
        Some(err) => Some(err@),
        None => None,
    }
}

/// The fixed rejection line for a first command that is not USER.
pub open spec fn user_reject_seq() -> Seq<char> {
    "392 the first command should be USER \r\n"@
}

/// The fixed rejection line for a second command that is not PONG.
pub open spec fn pong_reject_seq() -> Seq<char> {
    "392 the second command should be PONG \r\n"@
}

/// The PING challenge carrying the fixed token.
pub open spec fn ping_challenge_seq(addr: Seq<char>) -> Seq<char> {
    "PING "@ + addr + " :12345"@
}

/// The name of the default channel every session is joined to.
pub open spec fn welcome_seq() -> Seq<char> {
    "Welcome"@
}

/// Lines as written to the client: each followed by a newline.
pub open spec fn with_nl(lines: Seq<Seq<char>>) -> Seq<Seq<char>> {
    lines.map_values(|l: Seq<char>| l + "\n"@)
}

/// One joined channel of a JOIN list: the registry join, followed by
/// board creation when the channel is new.
pub open spec fn spec_join_step(reg: RegistryModel, name: Seq<char>, id: u64) -> RegistryModel {
    let j = reg.spec_join(name, id);
    if reg.join_created(name) {
        j.spec_ensure_board(name)
    } else {
        j
    }
}

/// Joining every channel of a JOIN list in order.
pub open spec fn spec_join_all(reg: RegistryModel, chans: Seq<Seq<char>>, id: u64) -> RegistryModel
    decreases chans.len(),
{
    if chans.len() == 0 {
        reg
    } else {
        spec_join_all(spec_join_step(reg, chans[0], id), chans.drop_first(), id)
    }
}

/// Leaving every channel of a PART list in order.
pub open spec fn spec_leave_all(reg: RegistryModel, chans: Seq<Seq<char>>, id: u64) -> RegistryModel
    decreases chans.len(),
{
    if chans.len() == 0 {
        reg
    } else {
        spec_leave_all(reg.spec_leave(chans[0], id), chans.drop_first(), id)
    }
}

/// One channel of a JOIN list keeps every channel paired with its
/// board: a created channel gets its board in the same step.
pub proof fn lemma_join_step_pairing(reg: RegistryModel, name: Seq<char>, id: u64)
    requires
        reg.wf(),
        reg.channels_have_boards(),
    ensures
        spec_join_step(reg, name, id).wf(),
        spec_join_step(reg, name, id).channels_have_boards(),
{
    lemma_join_preserves_wf(reg, name, id);
    lemma_join_names(reg, name, id);
    let j = reg.spec_join(name, id);
    if reg.join_created(name) {
        lemma_ensure_board_preserves_wf(j, name);
        lemma_ensure_board_names(j, name);
        let r = j.spec_ensure_board(name);
        assert forall|x: Seq<char>| #[trigger] r.has_chan(x) implies r.has_board(x) by {
            if x != name {
                lemma_first_index_push_new(reg.chan_names(), name, x);
                assert(reg.has_chan(x));
                if !j.has_board(name) {
                    lemma_first_index_push_found(j.board_names(), name, x);
                }
            }
        }
    } else {
        assert forall|x: Seq<char>| #[trigger] j.has_chan(x) implies j.has_board(x) by {
            assert(reg.has_chan(x));
        }
    }
}

/// Joining a whole JOIN list keeps every channel paired with its board.
pub proof fn lemma_join_all_pairing(reg: RegistryModel, chans: Seq<Seq<char>>, id: u64)
    requires
        reg.wf(),
        reg.channels_have_boards(),
    ensures
        spec_join_all(reg, chans, id).wf(),
        spec_join_all(reg, chans, id).channels_have_boards(),
    decreases chans.len(),
{
    if chans.len() != 0 {
        lemma_join_step_pairing(reg, chans[0], id);
        lemma_join_all_pairing(spec_join_step(reg, chans[0], id), chans.drop_first(), id);
    }
}

/// Leaving a whole PART list keeps every channel paired with its board.
pub proof fn lemma_leave_all_pairing(reg: RegistryModel, chans: Seq<Seq<char>>, id: u64)
    requires
        reg.wf(),
        reg.channels_have_boards(),
    ensures
        spec_leave_all(reg, chans, id).wf(),
        spec_leave_all(reg, chans, id).channels_have_boards(),
    decreases chans.len(),
{
    if chans.len() != 0 {
        lemma_leave_preserves_wf(reg, chans[0], id);
        lemma_leave_names(reg, chans[0], id);
        let r = reg.spec_leave(chans[0], id);
        assert forall|x: Seq<char>| #[trigger] r.has_chan(x) implies r.has_board(x) by {
            assert(reg.has_chan(x));
        }
        lemma_leave_all_pairing(r, chans.drop_first(), id);
    }
}

/// Every step of the session machine keeps every channel paired with
/// its message board: a channel's metadata exists exactly when its
/// board does, because the two are created together and neither is
/// ever deleted.
pub proof fn lemma_step_preserves_channel_board_pairing(
    sess: SessionModel,
    reg: RegistryModel,
    line: Seq<char>,
)
    requires
        reg.wf(),
        reg.channels_have_boards(),
    ensures
        spec_step(sess, reg, line).reg.channels_have_boards(),
{
    let st = spec_step(sess, reg, line);
    match spec_parse_message(line) {
        Err(_) => {},
        Ok(m) => match sess.state {
            SessionState::AwaitingUser => {
                match m.command {
                    CommandModel::USER(username, hostname, server, realname) => {
                        let u = UserModel { username, hostname, realname, server, nick: None };
                        let r = reg.spec_register(u);
                        assert forall|x: Seq<char>| #[trigger] r.has_chan(x) implies r.has_board(
                            x,
                        ) by {
                            assert(reg.has_chan(x));
                        }
                    },
                    _ => {},
                }
            },
            SessionState::AwaitingPong => {
                match m.command {
                    CommandModel::PONG(_server, _server2) => {
                        lemma_join_preserves_wf(reg, welcome_seq(), sess.user_id);
                        lemma_join_names(reg, welcome_seq(), sess.user_id);
                        let j = reg.spec_join(welcome_seq(), sess.user_id);
                        lemma_ensure_board_preserves_wf(j, welcome_seq());
                        lemma_ensure_board_names(j, welcome_seq());
                        let r = j.spec_ensure_board(welcome_seq());
                        assert forall|x: Seq<char>| #[trigger] r.has_chan(x) implies r.has_board(
                            x,
                        ) by {
                            if x != welcome_seq() {
                                if !reg.has_chan(welcome_seq()) {
                                    lemma_first_index_push_new(
                                        reg.chan_names(),
                                        welcome_seq(),
                                        x,
                                    );
                                }
                                assert(reg.has_chan(x));
                                if !j.has_board(welcome_seq()) {
                                    lemma_first_index_push_found(
                                        j.board_names(),
                                        welcome_seq(),
                                        x,
                                    );
                                }
                            }
                        }
                    },
                    _ => {},
                }
            },
            SessionState::Active => {
                match m.command {
                    CommandModel::RAW => {
                        if reg.has_board(sess.current_channel) {
                            lemma_post_preserves_wf(reg, sess.current_channel, m.raw);
                            let r = reg.spec_post(sess.current_channel, m.raw);
                            assert forall|x: Seq<char>| #[trigger] r.has_chan(x) implies r.has_board(
                                x,
                            ) by {
                                assert(reg.has_chan(x));
                            }
                        }
                    },
                    CommandModel::JOIN(chans, _keys, _trailing) => {
                        if chans.len() > 0 {
                            lemma_join_all_pairing(reg, chans, sess.user_id);
                        }
                    },
                    CommandModel::PART(chans, _trailing) => {
                        lemma_leave_all_pairing(reg, chans, sess.user_id);
                    },
                    _ => {},
                }
            },
            SessionState::Closed => {},
        },
    }
}

/// A step on a line that did not parse: fatal during the handshake,
/// silently dropped once active.
pub open spec fn spec_step_parse_err(
    sess: SessionModel,
    reg: RegistryModel,
    e: crate::command::ParseErrModel,
) -> StepModel {
    match sess.state {
        SessionState::AwaitingUser | SessionState::AwaitingPong => StepModel {
            sess: SessionModel { state: SessionState::Closed, ..sess },
            reg,
            outputs: Seq::<Seq<char>>::empty(),
            close: true,
            error: Some(IrcErrorModel::CommandParse(e)),
        },
        SessionState::Active => StepModel {
            sess,
            reg,
            outputs: Seq::<Seq<char>>::empty(),
            close: false,
            error: None,
        },
        SessionState::Closed => StepModel {
            sess,
            reg,
            outputs: Seq::<Seq<char>>::empty(),
            close: true,
            error: None,
        },
    }
}

/// The first line: USER registers the user under a fresh identifier and
/// sends the PING challenge; anything else is rejected with the fixed
/// line, leaves the user collection unchanged, and closes.
pub open spec fn spec_step_awaiting_user(
    sess: SessionModel,
    reg: RegistryModel,
    m: MessageModel,
) -> StepModel {
    match m.command {
        CommandModel::USER(username, hostname, server, realname) => {
            let u = UserModel { username, hostname, realname, server, nick: None };
            StepModel {
                sess: SessionModel {
                    state: SessionState::AwaitingPong,
                    user_id: reg.next_user_id as u64,
                    ..sess
                },
                reg: reg.spec_register(u),
                outputs: seq![ping_challenge_seq(sess.server_addr)],
                close: false,
                error: None,
            }
        },
        _ => StepModel {
            sess: SessionModel { state: SessionState::Closed, ..sess },
            reg,
            outputs: seq![user_reject_seq()],
            close: true,
            error: Some(IrcErrorModel::MissingUser),
        },
    }
}

/// The second line: PONG joins the default channel, ensures its board
/// exists, and replays the whole board; anything else is rejected with
/// the fixed line and closes.
pub open spec fn spec_step_awaiting_pong(
    sess: SessionModel,
    reg: RegistryModel,
    m: MessageModel,
) -> StepModel {
    match m.command {
        CommandModel::PONG(_server, _server2) => {
            let reg2 = reg.spec_join(welcome_seq(), sess.user_id).spec_ensure_board(welcome_seq());
            StepModel {
                sess: SessionModel {
                    state: SessionState::Active,
                    current_channel: welcome_seq(),
                    ..sess
                },
                reg: reg2,
                outputs: with_nl(reg2.board_lines(welcome_seq()).unwrap()),
                close: false,
                error: None,
            }
        },
        _ => StepModel {
            sess: SessionModel { state: SessionState::Closed, ..sess },
            reg,
            outputs: seq![pong_reject_seq()],
            close: true,
            error: Some(IrcErrorModel::DoSWarning),
        },
    }
}

/// An active-phase line, one case per dispatched command; recognized
/// commands with no effect leave everything unchanged.
pub open spec fn spec_step_active(
    sess: SessionModel,
    reg: RegistryModel,
    m: MessageModel,
) -> StepModel {
    let noop = StepModel {
        sess,
        reg,
        outputs: Seq::<Seq<char>>::empty(),
        close: false,
        error: None,
    };
    match m.command {
        CommandModel::RAW => {
            if reg.has_board(sess.current_channel) {
                StepModel { reg: reg.spec_post(sess.current_channel, m.raw), ..noop }
            } else {
                StepModel { error: Some(IrcErrorModel::UnknownChannel), ..noop }
            }
        },
        CommandModel::JOIN(chans, _keys, _trailing) => {
            if chans.len() > 0 {
                let reg2 = spec_join_all(reg, chans, sess.user_id);
                let outputs = match reg2.board_lines(chans[0]) {
                    Some(ls) => with_nl(ls),
                    None => Seq::<Seq<char>>::empty(),
                };
                StepModel {
                    sess: SessionModel { current_channel: chans[0], ..sess },
                    reg: reg2,
                    outputs,
                    ..noop
                }
            } else {
                noop
            }
        },
        CommandModel::LIST(names, _server) => {
            if names.len() == 0 {
                StepModel { outputs: with_nl(reg.chan_names()), ..noop }
            } else {
                StepModel { outputs: with_nl(reg.topics_of(names)), ..noop }
            }
        },
        CommandModel::NAMES(names, _server) => {
            if names.len() == 0 {
                StepModel { outputs: with_nl(reg.display_names()), ..noop }
            } else {
                noop
            }
        },
        CommandModel::PART(chans, _trailing) => {
            StepModel { reg: spec_leave_all(reg, chans, sess.user_id), ..noop }
        },
        CommandModel::QUIT(_comment) => {
            StepModel {
                sess: SessionModel { state: SessionState::Closed, ..sess },
                close: true,
                ..noop
            }
        },
        _ => noop,
    }
}

/// One step of the machine on one received line.
pub open spec fn spec_step(sess: SessionModel, reg: RegistryModel, line: Seq<char>) -> StepModel {
    match spec_parse_message(line) {
        Err(e) => spec_step_parse_err(sess, reg, e),
        Ok(m) => match sess.state {
            SessionState::AwaitingUser => spec_step_awaiting_user(sess, reg, m),
            SessionState::AwaitingPong => spec_step_awaiting_pong(sess, reg, m),
            SessionState::Active => spec_step_active(sess, reg, m),
            SessionState::Closed => StepModel {
                sess,
                reg,
                outputs: Seq::<Seq<char>>::empty(),
                close: true,
                error: None,
            },
        },
    }
}

/// A session whose first line parses but carries any command other than
/// USER is sent exactly the fixed rejection line, the connection
/// closes with `MissingUser`, and the registry — the user collection in
/// particular — gains no entry.
pub proof fn lemma_first_line_must_be_user(
    sess: SessionModel,
    reg: RegistryModel,
    line: Seq<char>,
)
    requires
        sess.state is AwaitingUser,
        spec_parse_message(line) matches Ok(m) && !(m.command is USER),
    ensures
        ({
            let st = spec_step(sess, reg, line);
            &&& st.outputs == seq![user_reject_seq()]
            &&& st.close
            &&& st.reg == reg
            &&& st.error == Some(IrcErrorModel::MissingUser)
            &&& st.sess.state is Closed
        }),
{
}

/// After a valid USER line and then a valid PONG line, the session is
/// active with the default channel current, its freshly registered user
/// is a member there, and the first string it receives — the start of
/// the board replay — is the seeded marker line of that channel.
pub proof fn lemma_handshake_auto_join(
    sess: SessionModel,
    reg: RegistryModel,
    line1: Seq<char>,
    line2: Seq<char>,
)
    requires
        sess.state is AwaitingUser,
        reg.wf(),
        reg.next_user_id < u64::MAX,
        spec_parse_message(line1) matches Ok(m1) && m1.command is USER,
        spec_parse_message(line2) matches Ok(m2) && m2.command is PONG,
    ensures
        ({
            let st1 = spec_step(sess, reg, line1);
            let st2 = spec_step(st1.sess, st1.reg, line2);
            &&& st1.sess.state is AwaitingPong
            &&& st2.sess.state is Active
            &&& st2.sess.current_channel == welcome_seq()
            &&& st2.reg.member(welcome_seq(), st1.sess.user_id)
            &&& st2.outputs.len() >= 1
            &&& st2.outputs[0] == marker_seq(welcome_seq()) + "\n"@
        }),
{
    let st1 = spec_step(sess, reg, line1);
    if let Ok(m1) = spec_parse_message(line1) {
        match m1.command {
            CommandModel::USER(username, hostname, server, realname) => {
                let u = UserModel { username, hostname, realname, server, nick: None };
                crate::registry::lemma_register_preserves_wf(reg, u);
            },
            _ => {},
        }
    }
    let reg1 = st1.reg;
    let uid = st1.sess.user_id;
    crate::registry::lemma_join_member(reg1, welcome_seq(), uid);
    lemma_join_preserves_wf(reg1, welcome_seq(), uid);
    let joined = reg1.spec_join(welcome_seq(), uid);
    lemma_ensure_board_preserves_wf(joined, welcome_seq());
    let reg2 = joined.spec_ensure_board(welcome_seq());
    assert(reg2.channels == joined.channels);
    let ls = reg2.board_lines(welcome_seq()).unwrap();
    assert(with_nl(ls)[0] == ls[0] + "\n"@);
}

/// An empty output list.
fn no_output() -> (r: Vec<String>)
    ensures
        r.deep_view() == Seq::<Seq<char>>::empty(),
{
    let r: Vec<String> = Vec::new();
    proof {
        assert(r.deep_view() =~= Seq::<Seq<char>>::empty());
    }
    r
}

/// One line as a single-element output list.
fn one_output(line: String) -> (r: Vec<String>)
    ensures
        r.deep_view() == seq![line@],
{
    let mut r: Vec<String> = Vec::new();
    r.push(line);
    proof {
        assert(r.deep_view() =~= seq![r@[0]@]);
    }
    r
}

/// Appends a newline to every line, as [`with_nl`] describes.
fn append_nl(lines: Vec<String>) -> (r: Vec<String>)
    ensures
        r.deep_view() == with_nl(lines.deep_view()),
{
    let n = lines.len();
    let mut r: Vec<String> = Vec::new();
    let mut i: usize = 0;
    while i < n
        invariant
            n == lines@.len(),
            i <= n,
            r.deep_view() =~= with_nl(lines.deep_view()).take(i as int),
        decreases n - i,
    {
        r.push(lines[i].clone().concat("\n"));
        proof {
            assert(with_nl(lines.deep_view()).take(i as int + 1) =~= with_nl(
                lines.deep_view(),
            ).take(i as int).push(with_nl(lines.deep_view())[i as int]));
            assert(r.deep_view() =~= with_nl(lines.deep_view()).take(i as int + 1));
        }
        i = i + 1;
    }
    proof {
        assert(with_nl(lines.deep_view()).take(n as int) =~= with_nl(lines.deep_view()));
    }
    r
}

impl Session {
    /// A fresh session for one accepted connection: awaiting USER, with
    /// the default channel as its current channel and the server's own
    /// address for the PING challenge.
    pub fn new(server_addr: String) -> (r: Self)
        ensures
            r@ == (SessionModel {
                state: SessionState::AwaitingUser,
                user_id: 0,
                current_channel: welcome_seq(),
                server_addr: server_addr@,
            }),
    {
        Session {
            state: SessionState::AwaitingUser,
            user_id: 0,
            current_channel: String::from_str("Welcome"),
            server_addr,
        }
    }

    /// The session's phase.
    pub fn state(&self) -> (r: SessionState)
        ensures
            r == self@.state,
    {
        self.state
    }

    /// The identifier the registry assigned to this session's user.
    pub fn user_id(&self) -> (r: u64)
        ensures
            r == self@.user_id,
    {
        self.user_id
    }

    /// The channel free text is currently posted to.
    pub fn current_channel(&self) -> (r: &str)
        ensures
            r@ == self@.current_channel,
    {
        self.current_channel.as_str()
    }

    /// Applies one received line to the session and the shared registry,
    /// exactly as [`spec_step`] describes.  The registry bound asks only
    /// that the identifier space is not exhausted.
    pub fn handle_line(&mut self, reg: &mut Registry, line: &str) -> (r: StepResult)
        requires
            old(reg)@.wf(),
            old(reg)@.users.len() < u64::MAX,
        ensures
            ({
                let m = spec_step(old(self)@, old(reg)@, line@);
                &&& final(self)@ == m.sess
                &&& final(reg)@ == m.reg
                &&& r.outputs.deep_view() == m.outputs
                &&& r.close == m.close
                &&& err_opt_view(r.error) == m.error
            }),
            final(reg)@.wf(),
    {
        let msg = match Message::parse(line.to_owned()) {
            Err(e) => {
                match self.state {
                    SessionState::AwaitingUser | SessionState::AwaitingPong => {
                        self.state = SessionState::Closed;
                        return StepResult {
                            outputs: no_output(),
                            close: true,
                            error: Some(IrcError::CommandParse(e)),
                        };
                    },
                    SessionState::Active => {
                        return StepResult { outputs: no_output(), close: false, error: None };
                    },
                    SessionState::Closed => {
                        return StepResult { outputs: no_output(), close: true, error: None };
                    },
                }
            },
            Ok(m) => m,
        };
        match self.state {
            SessionState::AwaitingUser => self.step_awaiting_user(reg, &msg),
            SessionState::AwaitingPong => self.step_awaiting_pong(reg, &msg),
            SessionState::Active => self.step_active(reg, &msg),
            SessionState::Closed => StepResult { outputs: no_output(), close: true, error: None },
        }
    }

    /// The AwaitingUser phase, as [`spec_step_awaiting_user`] describes.
    fn step_awaiting_user(&mut self, reg: &mut Registry, msg: &Message) -> (r: StepResult)
        requires
            old(self)@.state is AwaitingUser,
            old(reg)@.wf(),
            old(reg)@.users.len() < u64::MAX,
        ensures
            ({
                let m = spec_step_awaiting_user(old(self)@, old(reg)@, msg@);
                &&& final(self)@ == m.sess
                &&& final(reg)@ == m.reg
                &&& r.outputs.deep_view() == m.outputs
                &&& r.close == m.close
                &&& err_opt_view(r.error) == m.error
            }),
            final(reg)@.wf(),
    {
        match msg.command() {
            Command::USER(username, hostname, server, realname) => {
                let user = User::new(
                    username.clone(),
                    hostname.clone(),
                    realname.clone(),
                    server.clone(),
                );
                let id = reg.register_user(user);
                self.user_id = id;
                self.state = SessionState::AwaitingPong;
                let ping = String::from_str("PING ").concat(self.server_addr.as_str()).concat(
                    " :12345",
                );
                StepResult { outputs: one_output(ping), close: false, error: None }
            },
            _ => {
                self.state = SessionState::Closed;
                let reject = String::from_str("392 the first command should be USER \r\n");
                StepResult {
                    outputs: one_output(reject),
                    close: true,
                    error: Some(IrcError::MissingUser),
                }
            },
        }
    }

    /// The AwaitingPong phase, as [`spec_step_awaiting_pong`] describes.
    fn step_awaiting_pong(&mut self, reg: &mut Registry, msg: &Message) -> (r: StepResult)
        requires
            old(self)@.state is AwaitingPong,
            old(reg)@.wf(),
        ensures
            ({
                let m = spec_step_awaiting_pong(old(self)@, old(reg)@, msg@);
                &&& final(self)@ == m.sess
                &&& final(reg)@ == m.reg
                &&& r.outputs.deep_view() == m.outputs
                &&& r.close == m.close
                &&& err_opt_view(r.error) == m.error
            }),
            final(reg)@.wf(),
    {
        match msg.command() {
            Command::PONG(_server, _server2) => {
                proof {
                    lemma_join_preserves_wf(old(reg)@, welcome_seq(), old(self)@.user_id);
                    lemma_ensure_board_preserves_wf(
                        old(reg)@.spec_join(welcome_seq(), old(self)@.user_id),
                        welcome_seq(),
                    );
                }
                reg.join_channel("Welcome", self.user_id);
                reg.ensure_board("Welcome");
                self.state = SessionState::Active;
                self.current_channel = String::from_str("Welcome");
                let board = match reg.read_board("Welcome") {
                    Some(v) => v,
                    None => {
                        // ensure_board just guaranteed the board exists.
                        proof {
                            assert(false);
                        }
                        Vec::new()
                    },
                };
                StepResult { outputs: append_nl(board), close: false, error: None }
            },
            _ => {
                self.state = SessionState::Closed;
                let reject = String::from_str("392 the second command should be PONG \r\n");
                StepResult {
                    outputs: one_output(reject),
                    close: true,
                    error: Some(IrcError::DoSWarning),
                }
            },
        }
    }

    /// The Active phase, as [`spec_step_active`] describes.
    fn step_active(&mut self, reg: &mut Registry, msg: &Message) -> (r: StepResult)
        requires
            old(self)@.state is Active,
            old(reg)@.wf(),
        ensures
            ({
                let m = spec_step_active(old(self)@, old(reg)@, msg@);
                &&& final(self)@ == m.sess
                &&& final(reg)@ == m.reg
                &&& r.outputs.deep_view() == m.outputs
                &&& r.close == m.close
                &&& err_opt_view(r.error) == m.error
            }),
            final(reg)@.wf(),
    {
        match msg.command() {
            Command::RAW => {
                let raw = msg.raw_message().to_owned();
                match reg.post_message(self.current_channel.as_str(), raw.as_str()) {
                    Ok(()) => StepResult { outputs: no_output(), close: false, error: None },
                    Err(e) => StepResult { outputs: no_output(), close: false, error: Some(e) },
                }
            },
            Command::JOIN(channellist, _keys, _trailing) => {
                if channellist.len() > 0 {
                    let ghost chans = channellist.deep_view();
                    let ghost reg0 = reg@;
                    let n = channellist.len();
                    proof {
                        assert(chans.skip(0) =~= chans);
                    }
                    let mut k: usize = 0;
                    while k < n
                        invariant
                            n == channellist@.len(),
                            n == chans.len(),
                            chans == channellist.deep_view(),
                            k <= n,
                            reg@.wf(),
                            reg0.wf(),
                            spec_join_all(reg0, chans, self.user_id) == spec_join_all(
                                reg@,
                                chans.skip(k as int),
                                self.user_id,
                            ),
                        decreases n - k,
                    {
                        proof {
                            assert(chans.skip(k as int)[0] == chans[k as int]);
                            assert(chans.skip(k as int).drop_first() =~= chans.skip(k as int + 1));
                            assert(chans[k as int] == channellist@[k as int]@);
                        }
                        let ghost pre = reg@;
                        let created = reg.join_channel(channellist[k].as_str(), self.user_id);
                        if created {
                            reg.ensure_board(channellist[k].as_str());
                        }
                        proof {
                            assert(reg@ == spec_join_step(pre, chans[k as int], self.user_id));
                        }
                        k = k + 1;
                    }
                    proof {
                        assert(chans.skip(n as int) =~= Seq::<Seq<char>>::empty());
                        assert(reg@ == spec_join_all(reg0, chans, self.user_id));
                    }
                    self.current_channel = channellist[0].clone();
                    let outputs = match reg.read_board(self.current_channel.as_str()) {
                        Some(v) => append_nl(v),
                        None => no_output(),
                    };
                    StepResult { outputs, close: false, error: None }
                } else {
                    StepResult { outputs: no_output(), close: false, error: None }
                }
            },
            Command::LIST(channelset, _server) => {
                let outputs = if channelset.len() == 0 {
                    append_nl(reg.list_channels())
                } else {
                    append_nl(reg.list_topics(channelset))
                };
                StepResult { outputs, close: false, error: None }
            },
            Command::NAMES(channellist, _server) => {
                let outputs = if channellist.len() == 0 {
                    append_nl(reg.list_users())
                } else {
                    no_output()
                };
                StepResult { outputs, close: false, error: None }
            },
            Command::PART(channellist, _trailing) => {
                let ghost chans = channellist.deep_view();
                let ghost reg0 = reg@;
                let n = channellist.len();
                proof {
                    assert(chans.skip(0) =~= chans);
                }
                let mut k: usize = 0;
                while k < n
                    invariant
                        n == channellist@.len(),
                        n == chans.len(),
                        chans == channellist.deep_view(),
                        k <= n,
                        reg@.wf(),
                        reg0.wf(),
                        spec_leave_all(reg0, chans, self.user_id) == spec_leave_all(
                            reg@,
                            chans.skip(k as int),
                            self.user_id,
                        ),
                    decreases n - k,
                {
                    proof {
                        assert(chans.skip(k as int)[0] == chans[k as int]);
                        assert(chans.skip(k as int).drop_first() =~= chans.skip(k as int + 1));
                        assert(chans[k as int] == channellist@[k as int]@);
                    }
                    reg.leave_channel(channellist[k].as_str(), self.user_id);
                    k = k + 1;
                }
                proof {
                    assert(chans.skip(n as int) =~= Seq::<Seq<char>>::empty());
                    assert(reg@ == spec_leave_all(reg0, chans, self.user_id));
                }
                StepResult { outputs: no_output(), close: false, error: None }
            },
            Command::QUIT(_comment) => {
                self.state = SessionState::Closed;
                StepResult { outputs: no_output(), close: true, error: None }
            },
            _ => StepResult { outputs: no_output(), close: false, error: None },
        }
    }
}

} // verus!
