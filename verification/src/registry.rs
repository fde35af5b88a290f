//! The shared registry: three independently owned collections —
//! channels (name to metadata), message boards (name to an append-only
//! line sequence), and users (permanent identifier to record) — with
//! the join, leave, post, and snapshot operations over them.
//!
//! Each operation is one atomic step over plain data; the caller that
//! shares a registry between connections wraps it in a lock and holds
//! that lock for exactly one operation at a time, never across I/O.

use vstd::prelude::*;

use crate::channel::{ChannelMeta, ChannelMetaModel};
use crate::command::ChannelMode;
use crate::strutil::{first_index, lemma_first_index, lemma_first_index_is, str_eq};
use crate::user::{User, UserModel};
use crate::IrcError;

verus! {

/// The ordered, append-only history of one channel.
pub struct Board {
    name: String,
    lines: Vec<String>,
}

/// The mathematical shape of a [`Board`].
#[verifier::ext_equal]
pub ghost struct BoardModel {
    pub name: Seq<char>,
    pub lines: Seq<Seq<char>>,
}

impl View for Board {
    type V = BoardModel;

    closed spec fn view(&self) -> BoardModel {
        BoardModel { name: self.name@, lines: self.lines.deep_view() }
    }
}

/// One registered user together with the permanent identifier assigned
/// at registration time.
pub struct UserEntry {
    id: u64,
    user: User,
}

/// The mathematical shape of a [`UserEntry`].
#[verifier::ext_equal]
pub ghost struct UserEntryModel {
    pub id: u64,
    pub user: UserModel,
}

impl View for UserEntry {
    type V = UserEntryModel;

    closed spec fn view(&self) -> UserEntryModel {
        UserEntryModel { id: self.id, user: self.user@ }
    }
}

/// The synthetic first line every board is seeded with.
pub open spec fn marker_seq(name: Seq<char>) -> Seq<char> {
    "server => this is the beginning of: "@ + name
}

/// Builds the marker line for a channel name.
pub fn marker_line(name: &str) -> (r: String)
    ensures
        r@ == marker_seq(name@),
{
    String::from_str("server => this is the beginning of: ").concat(name)
}

/// The mathematical shape of a [`Registry`].  The collections keep
/// insertion order, so snapshots are pinned down exactly.
#[verifier::ext_equal]
pub ghost struct RegistryModel {
    pub channels: Seq<ChannelMetaModel>,
    pub boards: Seq<BoardModel>,
    pub users: Seq<UserEntryModel>,
    pub next_user_id: int,
}

impl RegistryModel {
    /// The channel names, in creation order.
    pub open spec fn chan_names(self) -> Seq<Seq<char>> {
        self.channels.map_values(|c: ChannelMetaModel| c.name)
    }

    /// The board names, in creation order.
    pub open spec fn board_names(self) -> Seq<Seq<char>> {
        self.boards.map_values(|b: BoardModel| b.name)
    }

    /// The position of a channel, or `-1` if it does not exist.
    pub open spec fn chan_idx(self, name: Seq<char>) -> int {
        first_index(self.chan_names(), name)
    }

    pub open spec fn has_chan(self, name: Seq<char>) -> bool {
        self.chan_idx(name) >= 0
    }

    /// The position of a board, or `-1` if it does not exist.
    pub open spec fn board_idx(self, name: Seq<char>) -> int {
        first_index(self.board_names(), name)
    }

    pub open spec fn has_board(self, name: Seq<char>) -> bool {
        self.board_idx(name) >= 0
    }

    /// The lines of a board, if the board exists.
    pub open spec fn board_lines(self, name: Seq<char>) -> Option<Seq<Seq<char>>> {
        if self.has_board(name) {
            Some(self.boards[self.board_idx(name)].lines)
        } else {
            None
        }
    }

    /// Whether `id` is in the membership set of the channel `name`.
    pub open spec fn member(self, name: Seq<char>, id: u64) -> bool {
        self.has_chan(name) && self.channels[self.chan_idx(name)].users.contains(id)
    }

    /// Well-formedness: channel and board names are unique, user
    /// identifiers are the positions they were registered at, the next
    /// identifier is the registration count, and every board starts with
    /// its marker line.
    pub open spec fn wf(self) -> bool {
        &&& forall|i: int, j: int|
            0 <= i < j < self.channels.len() ==> (#[trigger] self.channels[i].name) != (
            #[trigger] self.channels[j].name)
        &&& forall|i: int, j: int|
            0 <= i < j < self.boards.len() ==> (#[trigger] self.boards[i].name) != (
            #[trigger] self.boards[j].name)
        &&& forall|i: int| 0 <= i < self.users.len() ==> (#[trigger] self.users[i].id) == i
        &&& self.next_user_id == self.users.len()
        &&& forall|i: int|
            0 <= i < self.boards.len() ==> (#[trigger] self.boards[i].lines).len() >= 1
                && self.boards[i].lines[0] == marker_seq(self.boards[i].name)
    }

    /// Every channel has its message board.  Channel and board are
    /// created together by the two-step protocol — create the channel,
    /// then ensure the board — and neither is ever deleted, so the
    /// pairing, once established, persists.
    pub open spec fn channels_have_boards(self) -> bool {
        forall|name: Seq<char>| #[trigger] self.has_chan(name) ==> self.has_board(name)
    }

    /// One join step: an existing channel gains `id` as a member; a
    /// fresh channel is created with `id` as its single member.
    pub open spec fn spec_join(self, name: Seq<char>, id: u64) -> RegistryModel {
        let i = self.chan_idx(name);
        if i >= 0 {
            RegistryModel {
                channels: self.channels.update(
                    i,
                    ChannelMetaModel { users: self.channels[i].users.insert(id), ..self.channels[i] },
                ),
                ..self
            }
        } else {
            RegistryModel {
                channels: self.channels.push(
                    ChannelMetaModel {
                        name: name,
                        modes: Seq::<ChannelMode>::empty(),
                        users: Set::<u64>::empty().insert(id),
                        topic: None,
                        limit: None,
                    },
                ),
                ..self
            }
        }
    }

    /// Whether a join of `name` creates the channel.
    pub open spec fn join_created(self, name: Seq<char>) -> bool {
        !self.has_chan(name)
    }

    /// One leave step: `id` is removed from the channel's membership.
    /// Without the channel, or without the membership, nothing changes.
    pub open spec fn spec_leave(self, name: Seq<char>, id: u64) -> RegistryModel {
        let i = self.chan_idx(name);
        if i >= 0 {
            RegistryModel {
                channels: self.channels.update(
                    i,
                    ChannelMetaModel { users: self.channels[i].users.remove(id), ..self.channels[i] },
                ),
                ..self
            }
        } else {
            self
        }
    }

    /// One board-creation step: a missing board is created holding its
    /// marker line; an existing board is left alone.
    pub open spec fn spec_ensure_board(self, name: Seq<char>) -> RegistryModel {
        if self.has_board(name) {
            self
        } else {
            RegistryModel {
                boards: self.boards.push(BoardModel { name: name, lines: seq![marker_seq(name)] }),
                ..self
            }
        }
    }

    /// One post step: the line is appended to an existing board; a
    /// missing board leaves the registry unchanged (the operation fails).
    pub open spec fn spec_post(self, name: Seq<char>, line: Seq<char>) -> RegistryModel {
        let i = self.board_idx(name);
        if i >= 0 {
            RegistryModel {
                boards: self.boards.update(
                    i,
                    BoardModel { lines: self.boards[i].lines.push(line), ..self.boards[i] },
                ),
                ..self
            }
        } else {
            self
        }
    }

    /// One registration step: the user is stored under the next
    /// identifier, which is never reused.
    pub open spec fn spec_register(self, user: UserModel) -> RegistryModel {
        RegistryModel {
            users: self.users.push(UserEntryModel { id: self.next_user_id as u64, user }),
            next_user_id: self.next_user_id + 1,
            ..self
        }
    }

    /// The display names of all users, in registration order: the
    /// nickname when set, the username otherwise.
    pub open spec fn display_names(self) -> Seq<Seq<char>> {
        self.users.map_values(
            |e: UserEntryModel|
                match e.user.nick {
                    Some(n) => n,
                    None => e.user.username,
                },
        )
    }

    /// The topics of the queried channels, in query order: for each query
    /// that names an existing channel, its topic, or its name when no
    /// topic is set; queries of unknown channels produce nothing.
    pub open spec fn topics_of(self, queries: Seq<Seq<char>>) -> Seq<Seq<char>>
        decreases queries.len(),
    {
        if queries.len() == 0 {
            Seq::<Seq<char>>::empty()
        } else {
            let head = if self.has_chan(queries[0]) {
                match self.channels[self.chan_idx(queries[0])].topic {
                    Some(t) => seq![t],
                    None => seq![queries[0]],
                }
            } else {
                Seq::<Seq<char>>::empty()
            };
            head + self.topics_of(queries.drop_first())
        }
    }
}

/// Joining never touches boards or users, and preserves well-formedness.
pub proof fn lemma_join_preserves_wf(m: RegistryModel, name: Seq<char>, id: u64)
    requires
        m.wf(),
    ensures
        m.spec_join(name, id).wf(),
{
    let r = m.spec_join(name, id);
    if m.chan_idx(name) >= 0 {
        lemma_first_index(m.chan_names(), name);
        assert(r.chan_names() =~= m.chan_names());
        assert(forall|i: int| 0 <= i < r.channels.len() ==> (#[trigger] r.channels[i].name)
            == m.channels[i].name);
    } else {
        lemma_first_index(m.chan_names(), name);
        assert(forall|i: int| 0 <= i < m.channels.len() ==> (#[trigger] m.channels[i].name)
            == m.chan_names()[i]);
        assert(forall|i: int| 0 <= i < m.channels.len() ==> (#[trigger] m.channels[i].name)
            != name);
    }
}

/// Leaving never touches boards or users, and preserves well-formedness.
pub proof fn lemma_leave_preserves_wf(m: RegistryModel, name: Seq<char>, id: u64)
    requires
        m.wf(),
    ensures
        m.spec_leave(name, id).wf(),
{
    let r = m.spec_leave(name, id);
    if m.chan_idx(name) >= 0 {
        lemma_first_index(m.chan_names(), name);
        assert(forall|i: int| 0 <= i < r.channels.len() ==> (#[trigger] r.channels[i].name)
            == m.channels[i].name);
    }
}

/// Creating a board seeds it with its marker line and preserves
/// well-formedness.
pub proof fn lemma_ensure_board_preserves_wf(m: RegistryModel, name: Seq<char>)
    requires
        m.wf(),
    ensures
        m.spec_ensure_board(name).wf(),
        m.spec_ensure_board(name).has_board(name),
        m.spec_ensure_board(name).board_lines(name) matches Some(ls) && ls.len() >= 1 && ls[0]
            == marker_seq(name),
        !m.has_board(name) ==> m.spec_ensure_board(name).board_lines(name) == Some(
            seq![marker_seq(name)],
        ),
{
    let r = m.spec_ensure_board(name);
    lemma_first_index(m.board_names(), name);
    if !m.has_board(name) {
        assert(forall|i: int| 0 <= i < m.boards.len() ==> (#[trigger] m.boards[i].name)
            == m.board_names()[i]);
        assert(forall|i: int| 0 <= i < m.boards.len() ==> (#[trigger] m.boards[i].name) != name);
        assert(r.board_names() =~= m.board_names().push(name));
        lemma_first_index_is(r.board_names(), name, m.boards.len() as int);
    }
    lemma_first_index(r.board_names(), name);
}

/// Posting appends one line to the named board and preserves
/// well-formedness.
pub proof fn lemma_post_preserves_wf(m: RegistryModel, name: Seq<char>, line: Seq<char>)
    requires
        m.wf(),
    ensures
        m.spec_post(name, line).wf(),
        m.has_board(name) ==> m.spec_post(name, line).board_lines(name) == Some(
            m.board_lines(name).unwrap().push(line),
        ),
        m.spec_post(name, line).board_names() == m.board_names(),
{
    let r = m.spec_post(name, line);
    if m.board_idx(name) >= 0 {
        lemma_first_index(m.board_names(), name);
        assert(forall|i: int| 0 <= i < r.boards.len() ==> (#[trigger] r.boards[i].name)
            == m.boards[i].name);
        assert(r.board_names() =~= m.board_names());
    } else {
        assert(r.board_names() =~= m.board_names());
    }
}

/// Registration never touches channels or boards, and preserves
/// well-formedness.
pub proof fn lemma_register_preserves_wf(m: RegistryModel, user: UserModel)
    requires
        m.wf(),
        m.next_user_id < u64::MAX,
    ensures
        m.spec_register(user).wf(),
{
}

/// How one join changes the name spaces: boards are untouched, and the
/// channel names either stay as they are or gain the joined name at the
/// end.
pub proof fn lemma_join_names(m: RegistryModel, name: Seq<char>, id: u64)
    ensures
        m.has_chan(name) ==> m.spec_join(name, id).chan_names() == m.chan_names(),
        !m.has_chan(name) ==> m.spec_join(name, id).chan_names() == m.chan_names().push(name),
        m.spec_join(name, id).board_names() == m.board_names(),
{
    let r = m.spec_join(name, id);
    lemma_first_index(m.chan_names(), name);
    if m.has_chan(name) {
        assert(r.chan_names() =~= m.chan_names());
    } else {
        assert(r.chan_names() =~= m.chan_names().push(name));
    }
}

/// How one board creation changes the name spaces: channels are
/// untouched, and the board names either stay as they are or gain the
/// ensured name at the end.
pub proof fn lemma_ensure_board_names(m: RegistryModel, name: Seq<char>)
    ensures
        m.has_board(name) ==> m.spec_ensure_board(name) == m,
        !m.has_board(name) ==> m.spec_ensure_board(name).board_names() == m.board_names().push(
            name,
        ),
        m.spec_ensure_board(name).chan_names() == m.chan_names(),
{
    let r = m.spec_ensure_board(name);
    if !m.has_board(name) {
        assert(r.board_names() =~= m.board_names().push(name));
    }
}

/// Leaving changes no name space at all.
pub proof fn lemma_leave_names(m: RegistryModel, name: Seq<char>, id: u64)
    ensures
        m.spec_leave(name, id).chan_names() == m.chan_names(),
        m.spec_leave(name, id).board_names() == m.board_names(),
{
    let r = m.spec_leave(name, id);
    lemma_first_index(m.chan_names(), name);
    if m.chan_idx(name) >= 0 {
        assert(r.chan_names() =~= m.chan_names());
    }
}

/// Joining never leaves the joined user out.
pub proof fn lemma_join_member(m: RegistryModel, name: Seq<char>, id: u64)
    requires
        m.wf(),
    ensures
        m.spec_join(name, id).member(name, id),
{
    let r = m.spec_join(name, id);
    lemma_first_index(m.chan_names(), name);
    if m.chan_idx(name) >= 0 {
        assert(r.chan_names() =~= m.chan_names());
    } else {
        assert(forall|i: int| 0 <= i < m.channels.len() ==> (#[trigger] m.channels[i].name)
            == m.chan_names()[i]);
        assert(r.chan_names() =~= m.chan_names().push(name));
        lemma_first_index_is(r.chan_names(), name, m.channels.len() as int);
    }
}

/// Membership of a sequence is membership of its head or of its tail.
proof fn lemma_seq_contains_cons<T>(s: Seq<T>, x: T)
    requires
        s.len() > 0,
    ensures
        s.contains(x) <==> (s[0] == x || s.drop_first().contains(x)),
{
    if s.contains(x) {
        let j = choose|j: int| 0 <= j < s.len() && s[j] == x;
        if j > 0 {
            assert(s.drop_first()[j - 1] == x);
        }
    }
    if s.drop_first().contains(x) {
        let j = choose|j: int| 0 <= j < s.drop_first().len() && s.drop_first()[j] == x;
        assert(s[j + 1] == x);
    }
}

/// The registry after a sequence of joins of the same channel, one per
/// caller, in the order the registry's lock granted them.
pub open spec fn join_seq(reg: RegistryModel, name: Seq<char>, ids: Seq<u64>) -> RegistryModel
    decreases ids.len(),
{
    if ids.len() == 0 {
        reg
    } else {
        join_seq(reg.spec_join(name, ids[0]), name, ids.drop_first())
    }
}

/// Which of those callers observed `created == true`.
pub open spec fn join_created_flags(reg: RegistryModel, name: Seq<char>, ids: Seq<u64>) -> Seq<
    bool,
>
    decreases ids.len(),
{
    if ids.len() == 0 {
        Seq::<bool>::empty()
    } else {
        seq![reg.join_created(name)] + join_created_flags(
            reg.spec_join(name, ids[0]),
            name,
            ids.drop_first(),
        )
    }
}

/// Joins of an existing channel never create it: every caller observes
/// `created == false`, the membership set gains exactly the union of the
/// joining identifiers, and nothing else changes.
pub proof fn lemma_join_seq_existing(reg: RegistryModel, name: Seq<char>, ids: Seq<u64>)
    requires
        reg.has_chan(name),
    ensures
        ({
            let after = join_seq(reg, name, ids);
            let flags = join_created_flags(reg, name, ids);
            &&& flags.len() == ids.len()
            &&& forall|i: int| 0 <= i < ids.len() ==> flags[i] == false
            &&& after.chan_idx(name) == reg.chan_idx(name)
            &&& after.channels == reg.channels.update(
                reg.chan_idx(name),
                ChannelMetaModel {
                    users: reg.channels[reg.chan_idx(name)].users.union(ids.to_set()),
                    ..reg.channels[reg.chan_idx(name)]
                },
            )
            &&& after.boards == reg.boards
            &&& after.users == reg.users
            &&& after.next_user_id == reg.next_user_id
        }),
    decreases ids.len(),
{
    let k = reg.chan_idx(name);
    lemma_first_index(reg.chan_names(), name);
    if ids.len() == 0 {
        assert(ids.to_set() =~= Set::<u64>::empty());
        assert(reg.channels[k].users.union(ids.to_set()) =~= reg.channels[k].users);
        assert(reg.channels.update(
            k,
            ChannelMetaModel {
                users: reg.channels[k].users.union(ids.to_set()),
                ..reg.channels[k]
            },
        ) =~~= reg.channels);
    } else {
        let reg1 = reg.spec_join(name, ids[0]);
        assert(reg1.chan_names() =~= reg.chan_names());
        lemma_join_seq_existing(reg1, name, ids.drop_first());
        let after = join_seq(reg, name, ids);
        assert(forall|x: u64|
            ids.to_set().contains(x) == #[trigger] ids.contains(x));
        assert(forall|x: u64|
            ids.drop_first().to_set().contains(x) == #[trigger] ids.drop_first().contains(x));
        lemma_seq_contains_cons(ids, ids[0]);
        assert(reg1.channels[k].users =~= reg.channels[k].users.insert(ids[0]));
        assert(reg1.channels[k].users.union(ids.drop_first().to_set()) =~= reg.channels[k].users.union(
            ids.to_set(),
        )) by {
            assert(forall|x: u64| #[trigger]
                ids.contains(x) ==> x == ids[0] || ids.drop_first().contains(x)) by {
                assert(forall|j: int|
                    1 <= j < ids.len() ==> ids.drop_first()[j - 1] == #[trigger] ids[j]);
            }
            assert(forall|x: u64| #[trigger]
                ids.drop_first().contains(x) ==> ids.contains(x)) by {
                assert(forall|j: int|
                    0 <= j < ids.len() - 1 ==> #[trigger] ids.drop_first()[j] == ids[j + 1]);
            }
            assert(ids.contains(ids[0]));
        }
        assert(after.channels =~~= reg.channels.update(
            k,
            ChannelMetaModel {
                users: reg.channels[k].users.union(ids.to_set()),
                ..reg.channels[k]
            },
        ));
        assert(join_created_flags(reg, name, ids) =~= seq![false] + join_created_flags(
            reg1,
            name,
            ids.drop_first(),
        ));
    }
}

/// For any channel name never seen before and any group of callers whose
/// joins the registry's lock serialises in some order: exactly the first
/// call observes `created == true`, every other call observes `false`,
/// and afterwards the channel's membership set is exactly the set of all
/// joining identifiers — joining twice adds nothing.  Boards and users
/// are untouched.
pub proof fn lemma_concurrent_joins(reg: RegistryModel, name: Seq<char>, ids: Seq<u64>)
    requires
        !reg.has_chan(name),
        ids.len() > 0,
    ensures
        ({
            let after = join_seq(reg, name, ids);
            let flags = join_created_flags(reg, name, ids);
            &&& flags.len() == ids.len()
            &&& flags[0] == true
            &&& forall|i: int| 1 <= i < ids.len() ==> flags[i] == false
            &&& after.member(name, ids[0])
            &&& after.channels[after.chan_idx(name)].users == ids.to_set()
            &&& after.boards == reg.boards
            &&& after.users == reg.users
        }),
{
    let reg1 = reg.spec_join(name, ids[0]);
    lemma_first_index(reg.chan_names(), name);
    assert(forall|i: int| 0 <= i < reg.channels.len() ==> (#[trigger] reg.channels[i].name)
        == reg.chan_names()[i]);
    assert(reg1.chan_names() =~= reg.chan_names().push(name));
    lemma_first_index_is(reg1.chan_names(), name, reg.channels.len() as int);
    lemma_join_seq_existing(reg1, name, ids.drop_first());
    let after = join_seq(reg, name, ids);
    let k = reg1.chan_idx(name);
    assert(reg1.channels[k].users =~= Set::<u64>::empty().insert(ids[0]));
    assert(after.channels[k].users =~= reg1.channels[k].users.union(
        ids.drop_first().to_set(),
    ));
    assert(after.channels[k].users =~= ids.to_set()) by {
        assert(forall|j: int|
            0 <= j < ids.len() - 1 ==> #[trigger] ids.drop_first()[j] == ids[j + 1]);
        assert(forall|x: u64| #[trigger]
            ids.contains(x) ==> x == ids[0] || ids.drop_first().contains(x)) by {
            assert(forall|j: int|
                1 <= j < ids.len() ==> ids.drop_first()[j - 1] == #[trigger] ids[j]);
        }
        assert(ids.contains(ids[0]));
    }
    assert(join_created_flags(reg, name, ids) =~= seq![true] + join_created_flags(
        reg1,
        name,
        ids.drop_first(),
    ));
    assert(after.chan_idx(name) == k);
}

/// Leaving a channel the user was never in — or a channel that does not
/// exist — is a no-op: the whole registry is unchanged, and no error
/// arises.
pub proof fn lemma_leave_channel_no_op(reg: RegistryModel, name: Seq<char>, id: u64)
    requires
        !reg.member(name, id),
    ensures
        reg.spec_leave(name, id) == reg,
{
    if reg.chan_idx(name) >= 0 {
        let k = reg.chan_idx(name);
        lemma_first_index(reg.chan_names(), name);
        assert(reg.channels[k].users.remove(id) =~= reg.channels[k].users);
        assert(reg.spec_leave(name, id).channels =~~= reg.channels);
        assert(reg.spec_leave(name, id) =~~= reg);
    }
}

/// Board append order is preserved: posting three lines and reading the
/// board back yields exactly those lines in that order — after the
/// synthetic creation marker when the board was freshly created, or
/// after the previous contents when it already existed.
pub proof fn lemma_board_append_order(
    reg: RegistryModel,
    name: Seq<char>,
    l1: Seq<char>,
    l2: Seq<char>,
    l3: Seq<char>,
)
    requires
        reg.wf(),
    ensures
        ({
            let created = reg.spec_ensure_board(name);
            let after = created.spec_post(name, l1).spec_post(name, l2).spec_post(name, l3);
            !reg.has_board(name) ==> after.board_lines(name) == Some(
                seq![marker_seq(name), l1, l2, l3],
            )
        }),
        ({
            let after = reg.spec_post(name, l1).spec_post(name, l2).spec_post(name, l3);
            reg.has_board(name) ==> after.board_lines(name) == Some(
                reg.board_lines(name).unwrap() + seq![l1, l2, l3],
            )
        }),
{
    lemma_ensure_board_preserves_wf(reg, name);
    let created = reg.spec_ensure_board(name);
    lemma_post_preserves_wf(created, name, l1);
    lemma_post_preserves_wf(created.spec_post(name, l1), name, l2);
    lemma_post_preserves_wf(created.spec_post(name, l1).spec_post(name, l2), name, l3);
    if !reg.has_board(name) {
        let after = created.spec_post(name, l1).spec_post(name, l2).spec_post(name, l3);
        assert(after.board_lines(name) == Some(
            seq![marker_seq(name)].push(l1).push(l2).push(l3),
        ));
        assert(seq![marker_seq(name)].push(l1).push(l2).push(l3) =~= seq![
            marker_seq(name),
            l1,
            l2,
            l3,
        ]);
    } else {
        lemma_post_preserves_wf(reg, name, l1);
        lemma_post_preserves_wf(reg.spec_post(name, l1), name, l2);
        lemma_post_preserves_wf(reg.spec_post(name, l1).spec_post(name, l2), name, l3);
        let after = reg.spec_post(name, l1).spec_post(name, l2).spec_post(name, l3);
        assert(after.board_lines(name) == Some(
            reg.board_lines(name).unwrap().push(l1).push(l2).push(l3),
        ));
        assert(reg.board_lines(name).unwrap().push(l1).push(l2).push(l3) =~= reg.board_lines(
            name,
        ).unwrap() + seq![l1, l2, l3]);
    }
}

/// The shared registry.
pub struct Registry {
    channels: Vec<ChannelMeta>,
    boards: Vec<Board>,
    users: Vec<UserEntry>,
    next_user_id: u64,
}

impl View for Registry {
    type V = RegistryModel;

    closed spec fn view(&self) -> RegistryModel {
        RegistryModel {
            channels: self.channels@.map_values(|c: ChannelMeta| c@),
            boards: self.boards@.map_values(|b: Board| b@),
            users: self.users@.map_values(|u: UserEntry| u@),
            next_user_id: self.next_user_id as int,
        }
    }
}

impl Registry {
    /// An empty registry: no channels, no boards, no users.
    pub fn new() -> (r: Self)
        ensures
            r@ == (RegistryModel {
                channels: Seq::<ChannelMetaModel>::empty(),
                boards: Seq::<BoardModel>::empty(),
                users: Seq::<UserEntryModel>::empty(),
                next_user_id: 0,
            }),
            r@.wf(),
    {
        let r = Registry { channels: Vec::new(), boards: Vec::new(), users: Vec::new(), next_user_id: 0 };
        proof {
            assert(r@.channels =~= Seq::<ChannelMetaModel>::empty());
            assert(r@.boards =~= Seq::<BoardModel>::empty());
            assert(r@.users =~= Seq::<UserEntryModel>::empty());
        }
        r
    }

    /// The position of the named channel, related to the model's
    /// `chan_idx`.
    fn find_channel(&self, name: &str) -> (r: Option<usize>)
        ensures
            match r {
                Some(i) => self@.chan_idx(name@) == i && i < self@.channels.len(),
                None => self@.chan_idx(name@) == -1,
            },
    {
        let ghost names = self@.chan_names();
        let n = self.channels.len();
        let mut i: usize = 0;
        while i < n
            invariant
                n == self.channels@.len(),
                n == names.len(),
                names == self@.chan_names(),
                i <= n,
                forall|j: int| 0 <= j < i ==> names[j] != name@,
            decreases n - i,
        {
            proof {
                assert(names[i as int] == self.channels@[i as int]@.name);
            }
            if str_eq(self.channels[i].name(), name) {
                proof {
                    lemma_first_index_is(names, name@, i as int);
                }
                return Some(i);
            }
            i = i + 1;
        }
        proof {
            lemma_first_index(names, name@);
            if first_index(names, name@) != -1 {
                assert(names[first_index(names, name@)] == name@);
            }
        }
        None
    }

    /// The position of the named board, related to the model's
    /// `board_idx`.
    fn find_board(&self, name: &str) -> (r: Option<usize>)
        ensures
            match r {
                Some(i) => self@.board_idx(name@) == i && i < self@.boards.len(),
                None => self@.board_idx(name@) == -1,
            },
    {
        let ghost names = self@.board_names();
        let n = self.boards.len();
        let mut i: usize = 0;
        while i < n
            invariant
                n == self.boards@.len(),
                n == names.len(),
                names == self@.board_names(),
                i <= n,
                forall|j: int| 0 <= j < i ==> names[j] != name@,
            decreases n - i,
        {
            proof {
                assert(names[i as int] == self.boards@[i as int]@.name);
            }
            if str_eq(self.boards[i].name.as_str(), name) {
                proof {
                    lemma_first_index_is(names, name@, i as int);
                }
                return Some(i);
            }
            i = i + 1;
        }
        proof {
            lemma_first_index(names, name@);
            if first_index(names, name@) != -1 {
                assert(names[first_index(names, name@)] == name@);
            }
        }
        None
    }

    /// Joins a user to a channel, creating the channel when it is new.
    /// Returns whether the channel was created; the caller then ensures
    /// the board exists.  Joining an existing membership again changes
    /// nothing (the membership is a set).
    pub fn join_channel(&mut self, name: &str, user_id: u64) -> (created: bool)
        requires
            old(self)@.wf(),
        ensures
            final(self)@ == old(self)@.spec_join(name@, user_id),
            created == old(self)@.join_created(name@),
            final(self)@.wf(),
    {
        proof {
            lemma_join_preserves_wf(old(self)@, name@, user_id);
        }
        match self.find_channel(name) {
            Some(i) => {
                self.channels[i].join(user_id);
                proof {
                    assert(self@.channels =~= old(self)@.spec_join(name@, user_id).channels);
                    assert(self@ =~= old(self)@.spec_join(name@, user_id));
                }
                false
            },
            None => {
                let meta = ChannelMeta::new(name.to_owned(), user_id);
                self.channels.push(meta);
                proof {
                    assert(self@.channels =~= old(self)@.spec_join(name@, user_id).channels);
                    assert(self@ =~= old(self)@.spec_join(name@, user_id));
                }
                true
            },
        }
    }

    /// Removes a user from a channel's membership.  On a channel that
    /// does not exist, or a user that was never in it, this is a no-op:
    /// the registry is unchanged, and no error is reported.
    pub fn leave_channel(&mut self, name: &str, user_id: u64)
        requires
            old(self)@.wf(),
        ensures
            final(self)@ == old(self)@.spec_leave(name@, user_id),
            !old(self)@.member(name@, user_id) ==> final(self)@ == old(self)@,
            final(self)@.wf(),
    {
        proof {
            lemma_leave_preserves_wf(old(self)@, name@, user_id);
        }
        match self.find_channel(name) {
            Some(i) => {
                self.channels[i].leave(user_id);
                proof {
                    assert(self@.channels =~= old(self)@.spec_leave(name@, user_id).channels);
                    assert(self@ =~= old(self)@.spec_leave(name@, user_id));
                    if !old(self)@.member(name@, user_id) {
                        assert(old(self)@.channels[i as int].users.remove(user_id) =~= old(
                            self,
                        )@.channels[i as int].users);
                        assert(self@.channels =~= old(self)@.channels);
                        assert(self@ =~= old(self)@);
                    }
                }
            },
            None => {
                proof {
                    assert(self@ =~= old(self)@.spec_leave(name@, user_id));
                }
            },
        }
    }

    /// Creates the named board, seeded with its marker line, only if it
    /// is absent; calling it again changes nothing.
    pub fn ensure_board(&mut self, name: &str)
        requires
            old(self)@.wf(),
        ensures
            final(self)@ == old(self)@.spec_ensure_board(name@),
            final(self)@.wf(),
            final(self)@.has_board(name@),
    {
        proof {
            lemma_ensure_board_preserves_wf(old(self)@, name@);
        }
        match self.find_board(name) {
            Some(_) => {
                proof {
                    assert(self@ =~= old(self)@.spec_ensure_board(name@));
                }
            },
            None => {
                let mut lines: Vec<String> = Vec::new();
                lines.push(marker_line(name));
                proof {
                    assert(lines.deep_view() =~= seq![marker_seq(name@)]);
                }
                let board = Board { name: name.to_owned(), lines };
                self.boards.push(board);
                proof {
                    assert(self@.boards =~~= old(self)@.spec_ensure_board(name@).boards);
                    assert(self@ =~~= old(self)@.spec_ensure_board(name@));
                }
            },
        }
    }

    /// Appends a line to an existing board; the append order is the
    /// read-back order.  Fails with `UnknownChannel`, changing nothing,
    /// when the board does not exist.
    pub fn post_message(&mut self, name: &str, line: &str) -> (r: Result<(), IrcError>)
        requires
            old(self)@.wf(),
        ensures
            final(self)@ == old(self)@.spec_post(name@, line@),
            final(self)@.wf(),
            r is Ok <==> old(self)@.has_board(name@),
            r matches Err(e) ==> e@ == crate::IrcErrorModel::UnknownChannel && final(self)@ == old(
                self,
            )@,
    {
        proof {
            lemma_post_preserves_wf(old(self)@, name@, line@);
        }
        match self.find_board(name) {
            Some(i) => {
                self.boards[i].lines.push(line.to_owned());
                proof {
                    assert(self.boards@[i as int]@.lines =~= old(self)@.boards[i as int].lines.push(
                        line@,
                    ));
                    assert(self@.boards =~~= old(self)@.spec_post(name@, line@).boards);
                    assert(self@ =~~= old(self)@.spec_post(name@, line@));
                }
                Ok(())
            },
            None => {
                proof {
                    assert(self@ =~= old(self)@.spec_post(name@, line@));
                }
                Err(IrcError::UnknownChannel)
            },
        }
    }

    /// Stores a user under a fresh, permanent identifier.  The
    /// identifier is the registration count so far; it never changes and
    /// is never recomputed from the user's fields.
    pub fn register_user(&mut self, user: User) -> (r: u64)
        requires
            old(self)@.wf(),
            old(self)@.users.len() < u64::MAX,
        ensures
            final(self)@ == old(self)@.spec_register(user@),
            r as int == old(self)@.next_user_id,
            final(self)@.wf(),
    {
        let id = self.next_user_id;
        let entry = UserEntry { id, user };
        self.users.push(entry);
        self.next_user_id = id + 1;
        proof {
            assert(self@.users =~= old(self)@.spec_register(user@).users);
            assert(self@ =~= old(self)@.spec_register(user@));
            lemma_register_preserves_wf(old(self)@, user@);
        }
        id
    }

    /// How many users are registered.
    pub fn users_count(&self) -> (r: usize)
        ensures
            r == self@.users.len(),
    {
        self.users.len()
    }

    /// Whether `user_id` is currently a member of the named channel.
    pub fn is_member(&self, name: &str, user_id: u64) -> (r: bool)
        ensures
            r == self@.member(name@, user_id),
    {
        match self.find_channel(name) {
            Some(i) => self.channels[i].contains_user(user_id),
            None => false,
        }
    }

    /// A snapshot of all channel names, in creation order.
    pub fn list_channels(&self) -> (r: Vec<String>)
        ensures
            r.deep_view() == self@.chan_names(),
    {
        let n = self.channels.len();
        let mut out: Vec<String> = Vec::new();
        let mut i: usize = 0;
        while i < n
            invariant
                n == self.channels@.len(),
                i <= n,
                out.deep_view() =~= self@.chan_names().take(i as int),
            decreases n - i,
        {
            proof {
                assert(self@.chan_names()[i as int] == self.channels@[i as int]@.name);
            }
            out.push(self.channels[i].name().to_owned());
            proof {
                assert(self@.chan_names().take(i as int + 1) =~= self@.chan_names().take(
                    i as int,
                ).push(self@.chan_names()[i as int]));
                assert(out.deep_view() =~= self@.chan_names().take(i as int + 1));
            }
            i = i + 1;
        }
        proof {
            assert(self@.chan_names().take(n as int) =~= self@.chan_names());
        }
        out
    }

    /// A snapshot of all users' display names, in registration order:
    /// the nickname when set, the username otherwise.
    pub fn list_users(&self) -> (r: Vec<String>)
        ensures
            r.deep_view() == self@.display_names(),
    {
        let n = self.users.len();
        let mut out: Vec<String> = Vec::new();
        let mut i: usize = 0;
        while i < n
            invariant
                n == self.users@.len(),
                i <= n,
                out.deep_view() =~= self@.display_names().take(i as int),
            decreases n - i,
        {
            proof {
                assert(self@.display_names()[i as int] == (match self.users@[i as int]@.user.nick {
                    Some(nick) => nick,
                    None => self.users@[i as int]@.user.username,
                }));
            }
            let name = match self.users[i].user.nickname() {
                Some(nick) => nick.clone(),
                None => self.users[i].user.username().to_owned(),
            };
            out.push(name);
            proof {
                assert(self@.display_names().take(i as int + 1) =~= self@.display_names().take(
                    i as int,
                ).push(self@.display_names()[i as int]));
                assert(out.deep_view() =~= self@.display_names().take(i as int + 1));
            }
            i = i + 1;
        }
        proof {
            assert(self@.display_names().take(n as int) =~= self@.display_names());
        }
        out
    }

    /// A snapshot of the topics of the queried channels, as `topics_of`
    /// describes.
    pub fn list_topics(&self, queries: &Vec<String>) -> (r: Vec<String>)
        ensures
            r.deep_view() == self@.topics_of(queries.deep_view()),
    {
        let ghost qs = queries.deep_view();
        let n = queries.len();
        let mut out: Vec<String> = Vec::new();
        proof {
            assert(qs.skip(0) =~= qs);
            assert(out.deep_view() =~= Seq::<Seq<char>>::empty());
            assert(out.deep_view() + self@.topics_of(qs) =~= self@.topics_of(qs));
        }
        let mut i: usize = 0;
        while i < n
            invariant
                n == queries@.len(),
                n == qs.len(),
                qs == queries.deep_view(),
                i <= n,
                self@.topics_of(qs) =~~= out.deep_view() + self@.topics_of(qs.skip(i as int)),
            decreases n - i,
        {
            proof {
                assert(qs.skip(i as int)[0] == qs[i as int]);
                assert(qs.skip(i as int).drop_first() =~= qs.skip(i as int + 1));
                assert(qs[i as int] == queries@[i as int]@);
            }
            let ghost pre = out.deep_view();
            match self.find_channel(queries[i].as_str()) {
                Some(ci) => {
                    let entry = match self.channels[ci].topic() {
                        Some(t) => t.clone(),
                        None => queries[i].clone(),
                    };
                    out.push(entry);
                    proof {
                        assert(self@.topics_of(qs.skip(i as int)) == (match self@.channels[self@.chan_idx(qs[i as int])].topic {
                            Some(t) => seq![t],
                            None => seq![qs[i as int]],
                        }) + self@.topics_of(qs.skip(i as int + 1)));
                        assert(out.deep_view() =~= pre.push(out.deep_view().last()));
                        assert(self@.topics_of(qs) =~~= out.deep_view() + self@.topics_of(
                            qs.skip(i as int + 1),
                        ));
                    }
                },
                None => {
                    proof {
                        assert(self@.topics_of(qs.skip(i as int)) == Seq::<Seq<char>>::empty()
                            + self@.topics_of(qs.skip(i as int + 1)));
                        assert(self@.topics_of(qs) =~~= out.deep_view() + self@.topics_of(
                            qs.skip(i as int + 1),
                        ));
                    }
                },
            }
            i = i + 1;
        }
        proof {
            assert(qs.skip(n as int) =~= Seq::<Seq<char>>::empty());
            assert(self@.topics_of(qs) =~~= out.deep_view());
        }
        out
    }

    /// A snapshot of the named board's lines, in append order, if the
    /// board exists.
    pub fn read_board(&self, name: &str) -> (r: Option<Vec<String>>)
        ensures
            match r {
                Some(v) => self@.board_lines(name@) == Some(v.deep_view()),
                None => self@.board_lines(name@) is None,
            },
    {
        match self.find_board(name) {
            Some(i) => {
                let lines = &self.boards[i].lines;
                let m = lines.len();
                let mut out: Vec<String> = Vec::new();
                let mut j: usize = 0;
                while j < m
                    invariant
                        m == lines@.len(),
                        j <= m,
                        out.deep_view() =~= lines.deep_view().take(j as int),
                    decreases m - j,
                {
                    out.push(lines[j].clone());
                    proof {
                        assert(lines.deep_view().take(j as int + 1) =~= lines.deep_view().take(
                            j as int,
                        ).push(lines.deep_view()[j as int]));
                        assert(out.deep_view() =~= lines.deep_view().take(j as int + 1));
                    }
                    j = j + 1;
                }
                proof {
                    assert(lines.deep_view().take(m as int) =~= lines.deep_view());
                }
                Some(out)
            },
            None => None,
        }
    }
}

} // verus!
