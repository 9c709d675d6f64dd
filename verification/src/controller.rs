//! Who is in the room, and which operator is in control.
//!
//! Every participant carries its role as an attribute. The robot also carries
//! the identity of the operator that it listens to.
use crate::error::{PortalError, PortalResult};
use crate::name_map::NameMap;
use crate::name_set::NameSet;
use crate::rpc::RpcError;
use crate::text;
use crate::types::{ActionSubscription, Role};
use vstd::prelude::*;

verus! {

/// Attribute that holds a participant's role.
pub const ROLE_ATTR_KEY: &'static str = "lk.portal.role";

/// Attribute of the robot that holds the identity of the active operator;
/// empty for none.
pub const ACTIVE_OPERATOR_ATTR_KEY: &'static str = "lk.portal.active_operator";

pub const ROLE_VALUE_ROBOT: &'static str = "robot";

pub const ROLE_VALUE_OPERATOR: &'static str = "operator";

/// Attribute value of an observer.
pub const ROLE_VALUE_OBSERVER: &'static str = "observer";

/// Procedure on the robot that changes the active operator. Its payload is
/// the new identity, or empty for none.
pub const SET_ACTIVE_OPERATOR_RPC: &'static str = "portal.set_active_operator";

/// Error code for a request that reaches a robot that is not connected.
pub const RPC_NOT_CONNECTED: u32 = 2001;

/// Error code for a robot that could not publish its attribute.
pub const RPC_SET_ATTRIBUTES_FAILED: u32 = 2002;

/// Number of times that the room is searched again for a robot that is not
/// there yet.
pub const ROBOT_POLL_TICKS: u32 = 30;

/// Time between two searches.
pub const ROBOT_POLL_INTERVAL_MS: u64 = 50;

/// The text in an optional string.
pub open spec fn opt_text(s: Option<String>) -> Option<Seq<char>> {
    match s {
        Some(t) => Some(t@),
        None => None,
    }
}

/// An identity in an attribute or a payload, where empty means none.
pub open spec fn non_empty(s: Seq<char>) -> Option<Seq<char>> {
    if s.len() == 0 {
        None
    } else {
        Some(s)
    }
}

/// Reads an identity where empty means none.
pub fn identity_or_none(s: &str) -> (id: Option<String>)
    ensures
        opt_text(id) == non_empty(s@),
{
    if s.unicode_len() == 0 {
        None
    } else {
        Some(s.to_owned())
    }
}

/// The identity, or the empty text for none.
pub open spec fn identity_text(id: Option<Seq<char>>) -> Seq<char> {
    match id {
        Some(t) => t,
        None => ""@,
    }
}

/// Writes an identity where empty means none.
pub fn identity_value(id: &Option<String>) -> (s: String)
    ensures
        s@ == identity_text(opt_text(*id)),
{
    match id {
        Some(t) => t.clone(),
        None => "".to_owned(),
    }
}

fn clone_opt(s: &Option<String>) -> (c: Option<String>)
    ensures
        opt_text(c) == opt_text(*s),
{
    match s {
        Some(t) => Some(t.clone()),
        None => None,
    }
}

/// Whether two optional pieces of text are the same.
fn same_opt(a: &Option<String>, b: &Option<String>) -> (r: bool)
    ensures
        r == (opt_text(*a) == opt_text(*b)),
{
    match (a, b) {
        (Some(x), Some(y)) => text::same(x.as_str(), y.as_str()),
        (None, None) => true,
        _ => false,
    }
}

/// Whether an optional piece of text is the given one.
pub(crate) fn is_text(a: &Option<String>, b: &str) -> (r: bool)
    ensures
        r == (opt_text(*a) == Some(b@)),
{
    match a {
        Some(x) => text::same(x.as_str(), b),
        None => false,
    }
}

/// A participant in the room.
#[derive(Debug)]
pub struct Participant {
    pub identity: String,
    pub attributes: NameMap<String>,
}

/// Something that the application is told.
#[derive(Debug)]
pub enum Notice {
    OperatorJoined(String),
    OperatorLeft(String),
    ActiveOperatorChanged(Option<String>),
}

/// What a notice says.
pub enum NoticeView {
    OperatorJoined(Seq<char>),
    OperatorLeft(Seq<char>),
    ActiveOperatorChanged(Option<Seq<char>>),
}

impl View for Notice {
    type V = NoticeView;

    open spec fn view(&self) -> NoticeView {
        match self {
            Notice::OperatorJoined(id) => NoticeView::OperatorJoined(id@),
            Notice::OperatorLeft(id) => NoticeView::OperatorLeft(id@),
            Notice::ActiveOperatorChanged(id) => NoticeView::ActiveOperatorChanged(
                opt_text(*id),
            ),
        }
    }
}

/// What an optional notice says.
pub open spec fn notice_view(n: Option<Notice>) -> Option<NoticeView> {
    match n {
        Some(x) => Some(x@),
        None => None,
    }
}

/// The role that attributes declare.
pub open spec fn role_of(attrs: Map<Seq<char>, String>) -> Option<Role> {
    if !attrs.contains_key(ROLE_ATTR_KEY@) {
        None
    } else if attrs[ROLE_ATTR_KEY@]@ == ROLE_VALUE_ROBOT@ {
        Some(Role::Robot)
    } else if attrs[ROLE_ATTR_KEY@]@ == ROLE_VALUE_OPERATOR@ {
        Some(Role::Operator)
    } else if attrs[ROLE_ATTR_KEY@]@ == ROLE_VALUE_OBSERVER@ {
        Some(Role::Observer)
    } else {
        None
    }
}

/// The role that a participant's attributes declare; `None` for an unknown
/// value, or where there is none.
pub fn classify_role(attrs: &NameMap<String>) -> (r: Option<Role>)
    ensures
        r == role_of(attrs@),
{
    match attrs.get(ROLE_ATTR_KEY) {
        Some(v) => if text::same(v.as_str(), ROLE_VALUE_ROBOT) {
            Some(Role::Robot)
        } else if text::same(v.as_str(), ROLE_VALUE_OPERATOR) {
            Some(Role::Operator)
        } else if text::same(v.as_str(), ROLE_VALUE_OBSERVER) {
            Some(Role::Observer)
        } else {
            None
        },
        None => None,
    }
}

/// The attribute value of a role.
pub fn role_value(role: Role) -> (s: &'static str)
    ensures
        s@ == (match role {
            Role::Robot => ROLE_VALUE_ROBOT@,
            Role::Operator => ROLE_VALUE_OPERATOR@,
            Role::Observer => ROLE_VALUE_OBSERVER@,
        }),
{
    match role {
        Role::Robot => ROLE_VALUE_ROBOT,
        Role::Operator => ROLE_VALUE_OPERATOR,
        Role::Observer => ROLE_VALUE_OBSERVER,
    }
}

/// A participant that publishes its role is recognised by it.
pub proof fn law_published_role_is_recognised(attrs: Map<Seq<char>, String>, value: String)
    ensures
        value@ == ROLE_VALUE_ROBOT@ ==> role_of(attrs.insert(ROLE_ATTR_KEY@, value)) == Some(
            Role::Robot,
        ),
        value@ == ROLE_VALUE_OPERATOR@ ==> role_of(attrs.insert(ROLE_ATTR_KEY@, value)) == Some(
            Role::Operator,
        ),
        value@ == ROLE_VALUE_OBSERVER@ ==> role_of(attrs.insert(ROLE_ATTR_KEY@, value)) == Some(
            Role::Observer,
        ),
{
    reveal_strlit("robot");
    reveal_strlit("operator");
    reveal_strlit("observer");
    assert(ROLE_VALUE_ROBOT@.len() == 5);
    assert(ROLE_VALUE_OPERATOR@.len() == 8);
    assert(ROLE_VALUE_OPERATOR@[1] == 'p');
    assert(ROLE_VALUE_OBSERVER@[1] == 'b');
}

/// The operator that attributes of the robot name.
pub open spec fn named_operator(attrs: Map<Seq<char>, String>) -> Option<Seq<char>> {
    if attrs.contains_key(ACTIVE_OPERATOR_ATTR_KEY@) {
        non_empty(attrs[ACTIVE_OPERATOR_ATTR_KEY@]@)
    } else {
        None
    }
}

fn read_named_operator(attrs: &NameMap<String>) -> (id: Option<String>)
    ensures
        opt_text(id) == named_operator(attrs@),
{
    match attrs.get(ACTIVE_OPERATOR_ATTR_KEY) {
        Some(v) => identity_or_none(v.as_str()),
        None => None,
    }
}

/// What is known of the room.
#[derive(Debug)]
pub struct ControllerState {
    /// On the robot this is the truth; on an operator it mirrors the robot's
    /// attribute.
    active_operator: Option<String>,
    /// The operators in the room, other than this one.
    operators: NameSet,
    /// The observers in the room, other than this one.
    observers: NameSet,
    robot_identity: Option<String>,
}

/// What is known of the room.
#[verifier::ext_equal]
pub struct ControllerView {
    pub active_operator: Option<Seq<char>>,
    pub operators: Set<Seq<char>>,
    pub observers: Set<Seq<char>>,
    pub robot_identity: Option<Seq<char>>,
}

impl View for ControllerState {
    type V = ControllerView;

    closed spec fn view(&self) -> ControllerView {
        ControllerView {
            active_operator: opt_text(self.active_operator),
            operators: self.operators@,
            observers: self.observers@,
            robot_identity: opt_text(self.robot_identity),
        }
    }
}

/// What is known of an empty room.
pub open spec fn empty_room() -> ControllerView {
    ControllerView {
        active_operator: None,
        operators: Set::empty(),
        observers: Set::empty(),
        robot_identity: None,
    }
}

/// What is known once the robot read its own attributes.
pub open spec fn seeded(c: ControllerView, attrs: Map<Seq<char>, String>) -> ControllerView {
    if attrs.contains_key(ACTIVE_OPERATOR_ATTR_KEY@) {
        ControllerView { active_operator: named_operator(attrs), ..c }
    } else {
        c
    }
}

/// What is known once a participant was seen.
pub open spec fn after_seeing(
    c: ControllerView,
    self_role: Role,
    identity: Seq<char>,
    attrs: Map<Seq<char>, String>,
) -> ControllerView {
    match role_of(attrs) {
        Some(Role::Robot) => ControllerView {
            robot_identity: Some(identity),
            active_operator: if self_role != Role::Robot {
                named_operator(attrs)
            } else {
                c.active_operator
            },
            ..c
        },
        Some(Role::Operator) => ControllerView { operators: c.operators.insert(identity), ..c },
        Some(Role::Observer) => ControllerView { observers: c.observers.insert(identity), ..c },
        None => c,
    }
}

/// What the application is told when a participant is seen.
pub open spec fn told_on_seeing(
    c: ControllerView,
    self_role: Role,
    identity: Seq<char>,
    attrs: Map<Seq<char>, String>,
) -> Option<NoticeView> {
    match role_of(attrs) {
        Some(Role::Robot) => if self_role != Role::Robot && c.active_operator
            != named_operator(attrs) {
            Some(NoticeView::ActiveOperatorChanged(named_operator(attrs)))
        } else {
            None
        },
        Some(Role::Operator) => if c.operators.contains(identity) {
            None
        } else {
            Some(NoticeView::OperatorJoined(identity))
        },
        Some(Role::Observer) => None,
        None => None,
    }
}

/// What is known once participants were seen one after the other.
pub open spec fn after_seeing_all(
    c: ControllerView,
    self_role: Role,
    participants: Seq<Participant>,
) -> ControllerView
    decreases participants.len(),
{
    if participants.len() == 0 {
        c
    } else {
        after_seeing(
            after_seeing_all(c, self_role, participants.drop_last()),
            self_role,
            participants.last().identity@,
            participants.last().attributes@,
        )
    }
}

/// What the application is told when participants are seen one after the
/// other.
pub open spec fn told_on_seeing_all(
    c: ControllerView,
    self_role: Role,
    participants: Seq<Participant>,
) -> Seq<NoticeView>
    decreases participants.len(),
{
    if participants.len() == 0 {
        Seq::empty()
    } else {
        let front = participants.drop_last();
        let told = told_on_seeing_all(c, self_role, front);
        match told_on_seeing(
            after_seeing_all(c, self_role, front),
            self_role,
            participants.last().identity@,
            participants.last().attributes@,
        ) {
            Some(n) => told.push(n),
            None => told,
        }
    }
}

/// Seeing the same participant again changes nothing and tells nothing.
pub proof fn law_seeing_again_changes_nothing(
    c: ControllerView,
    self_role: Role,
    identity: Seq<char>,
    attrs: Map<Seq<char>, String>,
)
    ensures
        ({
            let seen = after_seeing(c, self_role, identity, attrs);
            &&& after_seeing(seen, self_role, identity, attrs) == seen
            &&& told_on_seeing(seen, self_role, identity, attrs) is None
        }),
{
    let seen = after_seeing(c, self_role, identity, attrs);
    assert(after_seeing(seen, self_role, identity, attrs) =~= seen);
}

/// What is known once a participant left. The active operator stays, so that
/// it is in control again when it comes back.
pub open spec fn after_leaving(c: ControllerView, identity: Seq<char>) -> ControllerView {
    ControllerView {
        active_operator: c.active_operator,
        operators: c.operators.remove(identity),
        observers: c.observers.remove(identity),
        robot_identity: if c.robot_identity == Some(identity) {
            None
        } else {
            c.robot_identity
        },
    }
}

/// An operator that leaves and comes back is in control as before, and is
/// known to be there again.
pub proof fn law_control_survives_a_rejoin(
    c: ControllerView,
    self_role: Role,
    identity: Seq<char>,
    attrs: Map<Seq<char>, String>,
)
    requires
        role_of(attrs) == Some(Role::Operator),
        c.operators.contains(identity),
    ensures
        ({
            let back = after_seeing(after_leaving(c, identity), self_role, identity, attrs);
            &&& back.active_operator == c.active_operator
            &&& back.operators == c.operators
        }),
{
    let back = after_seeing(after_leaving(c, identity), self_role, identity, attrs);
    assert(back.operators =~= c.operators);
}

impl ControllerState {
    /// Nothing is known yet.
    pub fn new() -> (c: Self)
        ensures
            c@ == empty_room(),
    {
        ControllerState {
            active_operator: None,
            operators: NameSet::new(),
            observers: NameSet::new(),
            robot_identity: None,
        }
    }

    /// Forgets everything.
    pub fn clear(&mut self)
        ensures
            final(self)@ == empty_room(),
    {
        self.active_operator = None;
        self.operators.clear();
        self.observers.clear();
        self.robot_identity = None;
    }

    /// Forgets who is in the room but not who is in control: after a
    /// reconnect the room is told anew, and the robot's pointer is not.
    pub fn clear_for_reconnect(&mut self)
        ensures
            final(self)@ == (ControllerView {
                active_operator: old(self)@.active_operator,
                ..empty_room()
            }),
    {
        self.operators.clear();
        self.observers.clear();
        self.robot_identity = None;
    }

    /// The operator in control.
    pub fn active_operator(&self) -> (id: Option<String>)
        ensures
            opt_text(id) == self@.active_operator,
    {
        clone_opt(&self.active_operator)
    }

    /// The operators in the room in order.
    pub fn operators(&self) -> (v: Vec<String>)
        ensures
            crate::name_set::in_order(v@),
            crate::name_set::names_in(v@) == self@.operators,
    {
        self.operators.to_vec()
    }

    /// The observers in the room in order.
    pub fn observers(&self) -> (v: Vec<String>)
        ensures
            crate::name_set::in_order(v@),
            crate::name_set::names_in(v@) == self@.observers,
    {
        self.observers.to_vec()
    }

    /// The robot in the room.
    pub fn robot_identity(&self) -> (id: Option<String>)
        ensures
            opt_text(id) == self@.robot_identity,
    {
        clone_opt(&self.robot_identity)
    }

    /// Takes in what a participant's attributes say: its role, and on an
    /// operator the robot's pointer. Returns what the application is told.
    pub fn classify_and_update(
        &mut self,
        self_role: Role,
        identity: &str,
        attrs: &NameMap<String>,
    ) -> (notice: Option<Notice>)
        ensures
            final(self)@ == after_seeing(old(self)@, self_role, identity@, attrs@),
            notice_view(notice) == told_on_seeing(old(self)@, self_role, identity@, attrs@),
    {
        match classify_role(attrs) {
            Some(Role::Robot) => {
                self.robot_identity = Some(identity.to_owned());
                if self_role != Role::Robot {
                    let named: Option<String> = read_named_operator(attrs);
                    self.set_active(named)
                } else {
                    None
                }
            },
            Some(Role::Operator) => if self.operators.insert(identity) {
                Some(Notice::OperatorJoined(identity.to_owned()))
            } else {
                None
            },
            Some(Role::Observer) => {
                self.observers.insert(identity);
                None
            },
            None => None,
        }
    }

    /// Takes in everyone who is in the room already.
    pub fn classify_all(&mut self, self_role: Role, participants: &[Participant]) -> (notices: Vec<
        Notice,
    >)
        ensures
            final(self)@ == after_seeing_all(old(self)@, self_role, participants@),
            notices@.map_values(|n: Notice| n@) == told_on_seeing_all(
                old(self)@,
                self_role,
                participants@,
            ),
    {
        let mut notices: Vec<Notice> = Vec::new();
        let mut i: usize = 0;
        proof {
            assert(participants@.take(0).len() == 0);
            assert(notices@.map_values(|n: Notice| n@) =~= Seq::empty());
        }
        while i < participants.len()
            invariant
                i <= participants@.len(),
                self@ == after_seeing_all(old(self)@, self_role, participants@.take(i as int)),
                notices@.map_values(|n: Notice| n@) == told_on_seeing_all(
                    old(self)@,
                    self_role,
                    participants@.take(i as int),
                ),
            decreases participants@.len() - i,
        {
            let ghost before = notices@;
            let p: &Participant = &participants[i];
            let notice: Option<Notice> = self.classify_and_update(
                self_role,
                p.identity.as_str(),
                &p.attributes,
            );
            i = i + 1;
            proof {
                let seen = participants@.take(i as int);
                assert(seen.drop_last() =~= participants@.take(i - 1));
                assert(seen.last() == participants@[i - 1]);
            }
            match notice {
                Some(n) => {
                    let ghost told = n@;
                    notices.push(n);
                    assert(notices@.map_values(|n: Notice| n@) =~= before.map_values(
                        |n: Notice| n@,
                    ).push(told));
                },
                None => {},
            }
        }
        assert(participants@.take(i as int) =~= participants@);
        notices
    }

    /// Takes in that a participant left. Returns what the application is
    /// told.
    pub fn participant_left(&mut self, identity: &str) -> (notice: Option<Notice>)
        ensures
            final(self)@ == after_leaving(old(self)@, identity@),
            notice_view(notice) == (if old(self)@.operators.contains(identity@) {
                Some(NoticeView::OperatorLeft(identity@))
            } else {
                None
            }),
    {
        let was_operator: bool = self.operators.remove(identity);
        self.observers.remove(identity);
        if is_text(&self.robot_identity, identity) {
            self.robot_identity = None;
        }
        if was_operator {
            Some(Notice::OperatorLeft(identity.to_owned()))
        } else {
            None
        }
    }

    /// Points to another operator. Returns what the application is told:
    /// nothing where the pointer did not move.
    pub fn set_active(&mut self, identity: Option<String>) -> (notice: Option<Notice>)
        ensures
            final(self)@ == (ControllerView {
                active_operator: opt_text(identity),
                ..old(self)@
            }),
            notice_view(notice) == (if old(self)@.active_operator == opt_text(identity) {
                None
            } else {
                Some(NoticeView::ActiveOperatorChanged(opt_text(identity)))
            }),
    {
        if same_opt(&self.active_operator, &identity) {
            None
        } else {
            self.active_operator = clone_opt(&identity);
            Some(Notice::ActiveOperatorChanged(identity))
        }
    }

    /// Takes the pointer from the robot's own attributes, where they have
    /// one. Nobody is told.
    pub fn seed_active(&mut self, attrs: &NameMap<String>)
        ensures
            final(self)@ == seeded(old(self)@, attrs@),
    {
        if attrs.contains_key(ACTIVE_OPERATOR_ATTR_KEY) {
            self.active_operator = read_named_operator(attrs);
        }
    }

    /// Whether an identity is the one in control.
    pub fn is_active(&self, identity: &Option<String>) -> (b: bool)
        ensures
            b == (identity is Some && opt_text(*identity) == self@.active_operator),
    {
        match identity {
            Some(id) => is_text(&self.active_operator, id.as_str()),
            None => false,
        }
    }

    /// Looks for the robot in the room and remembers the first one.
    pub fn find_robot_in_room(&mut self, remotes: &[Participant]) -> (id: Option<String>)
        ensures
            opt_text(id) == first_robot(remotes@),
            final(self)@ == (match first_robot(remotes@) {
                Some(r) => ControllerView { robot_identity: Some(r), ..old(self)@ },
                None => old(self)@,
            }),
    {
        let mut i: usize = 0;
        assert(remotes@.skip(0) =~= remotes@);
        while i < remotes.len()
            invariant
                i <= remotes@.len(),
                first_robot(remotes@.skip(i as int)) == first_robot(remotes@),
                self@ == old(self)@,
            decreases remotes@.len() - i,
        {
            proof {
                assert(remotes@.skip(i as int)[0] == remotes@[i as int]);
                assert(remotes@.skip(i as int).skip(1) =~= remotes@.skip(i + 1));
            }
            if classify_role(&remotes[i].attributes) == Some(Role::Robot) {
                let id: String = remotes[i].identity.clone();
                self.robot_identity = Some(id.clone());
                return Some(id);
            }
            i = i + 1;
        }
        None
    }

    /// The participant that a call without a destination goes to: the robot
    /// for an operator, the active operator for the robot, or the only other
    /// participant. `remotes` is `None` while not connected.
    pub fn resolve_peer(&self, role: Role, remotes: &Option<Vec<String>>) -> (r: PortalResult<
        String,
    >)
        ensures
            match counterpart(self@, role) {
                Some(id) => r matches Ok(s) && s@ == id,
                None => match *remotes {
                    None => r == Err::<String, PortalError>(PortalError::NotConnected),
                    Some(v) => if v@.len() == 0 {
                        r == Err::<String, PortalError>(PortalError::NoPeer)
                    } else if v@.len() == 1 {
                        r matches Ok(s) && s@ == v@[0]@
                    } else {
                        r == Err::<String, PortalError>(PortalError::AmbiguousPeer)
                    },
                },
            },
    {
        let known: &Option<String> = match role {
            Role::Operator | Role::Observer => &self.robot_identity,
            Role::Robot => &self.active_operator,
        };
        match known {
            Some(id) => {
                return Ok(id.clone());
            },
            None => {},
        }
        match remotes {
            None => Err(PortalError::NotConnected),
            Some(v) => if v.len() == 0 {
                Err(PortalError::NoPeer)
            } else if v.len() == 1 {
                Ok(v[0].clone())
            } else {
                Err(PortalError::AmbiguousPeer)
            },
        }
    }

    /// Takes in how the robot's attribute was published after a request to
    /// point to `identity`. The pointer moves only once it was.
    pub fn finish_set_active(
        &mut self,
        identity: Option<String>,
        published: Result<(), String>,
    ) -> (r: Result<Option<Notice>, RpcError>)
        ensures
            match published {
                Ok(_) => {
                    &&& final(self)@ == (ControllerView {
                        active_operator: opt_text(identity),
                        ..old(self)@
                    })
                    &&& r matches Ok(notice) && notice_view(notice) == (if old(
                        self,
                    )@.active_operator == opt_text(identity) {
                        None
                    } else {
                        Some(NoticeView::ActiveOperatorChanged(opt_text(identity)))
                    })
                },
                Err(e) => {
                    &&& final(self)@ == old(self)@
                    &&& r matches Err(rpc) && rpc.code == RPC_SET_ATTRIBUTES_FAILED
                        && rpc.message@ == "set_attributes failed: "@ + e@ && rpc.data is None
                },
            },
            r matches Err(rpc) ==> rpc.code == 2002,
    {
        match published {
            Ok(_) => Ok(self.set_active(identity)),
            Err(e) => {
                let mut m: String = "set_attributes failed: ".to_owned();
                m.append(e.as_str());
                Err(RpcError::new(RPC_SET_ATTRIBUTES_FAILED, m, None))
            },
        }
    }
}

/// The first robot among participants.
pub open spec fn first_robot(remotes: Seq<Participant>) -> Option<Seq<char>>
    decreases remotes.len(),
{
    if remotes.len() == 0 {
        None
    } else if role_of(remotes[0].attributes@) == Some(Role::Robot) {
        Some(remotes[0].identity@)
    } else {
        first_robot(remotes.skip(1))
    }
}

/// The participant that a side works with.
pub open spec fn counterpart(c: ControllerView, role: Role) -> Option<Seq<char>> {
    match role {
        Role::Operator | Role::Observer => c.robot_identity,
        Role::Robot => c.active_operator,
    }
}

/// Reads a request to change the active operator: the identity to point to,
/// or none. A robot that is not connected refuses.
pub fn begin_set_active(payload: &str, connected: bool) -> (r: Result<Option<String>, RpcError>)
    ensures
        if connected {
            r matches Ok(id) && opt_text(id) == non_empty(payload@)
        } else {
            r matches Err(e) && e.code == RPC_NOT_CONNECTED && e.message@
                == "robot not connected"@ && e.data is None
        },
        r matches Err(e) ==> e.code == 2001,
{
    if !connected {
        return Err(RpcError::new(RPC_NOT_CONNECTED, "robot not connected".to_owned(), None));
    }
    Ok(identity_or_none(payload))
}

/// Whether an action is taken in. The robot takes in those of the operator in
/// control. Every other side takes in what it subscribed to.
pub open spec fn gate_passes(
    role: Role,
    subscription: ActionSubscription,
    active_operator: Option<Seq<char>>,
    sender: Option<Seq<char>>,
) -> bool {
    &&& sender is Some
    &&& match (role, subscription) {
        (Role::Robot, _) => sender == active_operator,
        (_, ActionSubscription::Off) => false,
        (_, ActionSubscription::Active) => sender == active_operator,
        (_, ActionSubscription::All) => true,
    }
}

/// The sender of an action that is taken in, and whether it is the operator in
/// control; `None` for one that is not taken in.
pub fn gate_action(
    role: Role,
    subscription: ActionSubscription,
    controller: &ControllerState,
    sender: Option<String>,
) -> (passed: Option<(String, bool)>)
    ensures
        match passed {
            Some((id, active)) => gate_passes(
                role,
                subscription,
                controller@.active_operator,
                opt_text(sender),
            ) && Some(id) == sender && active == (opt_text(sender)
                == controller@.active_operator),
            None => !gate_passes(
                role,
                subscription,
                controller@.active_operator,
                opt_text(sender),
            ),
        },
{
    let active: bool = controller.is_active(&sender);
    let wanted: bool = match role {
        Role::Robot => active,
        Role::Operator | Role::Observer => match subscription {
            ActionSubscription::Off => false,
            ActionSubscription::Active => active,
            ActionSubscription::All => true,
        },
    };
    match sender {
        Some(id) => if wanted {
            Some((id, active))
        } else {
            None
        },
        None => None,
    }
}

/// At any time the robot takes in the actions of at most one participant, and
/// none at all while nobody is in control. The same holds of every other side,
/// unless it subscribed to the actions of all.
pub proof fn law_one_operator_at_a_time(
    role: Role,
    subscription: ActionSubscription,
    active_operator: Option<Seq<char>>,
    a: Seq<char>,
    b: Seq<char>,
)
    requires
        role == Role::Robot || subscription != ActionSubscription::All,
    ensures
        gate_passes(role, subscription, active_operator, Some(a)) && gate_passes(
            role,
            subscription,
            active_operator,
            Some(b),
        ) ==> a == b,
        active_operator is None ==> !gate_passes(
            role,
            subscription,
            active_operator,
            Some(a),
        ),
{
}

/// Subscribing to more never takes an action away, and without a subscription
/// none is taken in.
pub proof fn law_subscriptions_widen(
    role: Role,
    active_operator: Option<Seq<char>>,
    sender: Option<Seq<char>>,
)
    requires
        role != Role::Robot,
    ensures
        !gate_passes(role, ActionSubscription::Off, active_operator, sender),
        gate_passes(role, ActionSubscription::Active, active_operator, sender) ==> gate_passes(
            role,
            ActionSubscription::All,
            active_operator,
            sender,
        ),
        gate_passes(role, ActionSubscription::All, active_operator, sender) <==> sender is Some,
{
}

/// Handing control over takes effect at once: from the moment that the robot
/// points to an operator it takes in the actions of that one and of no other.
pub proof fn law_handover_is_complete(
    subscription: ActionSubscription,
    to: Option<Seq<char>>,
    sender: Seq<char>,
)
    ensures
        gate_passes(Role::Robot, subscription, to, Some(sender)) <==> to == Some(sender),
{
}

/// Search of an operator for the robot that it just joined.
#[derive(Debug, Clone, Copy, PartialEq, Eq, Structural)]
pub struct RobotSearch {
    /// How often the room is still searched again.
    pub ticks_left: u32,
}

/// What a search does next.
#[derive(Debug)]
pub enum SearchStep {
    Found(String),
    /// Search again after this many milliseconds.
    Wait(u64),
    /// There is no robot in the room.
    GiveUp(PortalError),
}

impl RobotSearch {
    pub fn new() -> (s: Self)
        ensures
            s.ticks_left == ROBOT_POLL_TICKS,
            s.ticks_left == 30,
    {
        RobotSearch { ticks_left: ROBOT_POLL_TICKS }
    }

    /// Looks for the robot: the one that is known, or one in the room.
    pub fn step(
        &mut self,
        controller: &mut ControllerState,
        remotes: &[Participant],
    ) -> (step: SearchStep)
        ensures
            match old(controller)@.robot_identity {
                Some(id) => {
                    &&& step matches SearchStep::Found(s) && s@ == id
                    &&& final(controller)@ == old(controller)@
                    &&& *final(self) == *old(self)
                },
                None => match first_robot(remotes@) {
                    Some(id) => {
                        &&& step matches SearchStep::Found(s) && s@ == id
                        &&& final(controller)@ == (ControllerView {
                            robot_identity: Some(id),
                            ..old(controller)@
                        })
                        &&& *final(self) == *old(self)
                    },
                    None => {
                        &&& final(controller)@ == old(controller)@
                        &&& if old(self).ticks_left == 0 {
                            &&& step == SearchStep::GiveUp(PortalError::NoPeer)
                            &&& final(self).ticks_left == 0
                        } else {
                            &&& step == SearchStep::Wait(ROBOT_POLL_INTERVAL_MS)
                            &&& final(self).ticks_left == old(self).ticks_left - 1
                        }
                    },
                },
            },
            step matches SearchStep::Wait(ms) ==> ms == 50,
    {
        match controller.robot_identity() {
            Some(id) => {
                return SearchStep::Found(id);
            },
            None => {},
        }
        match controller.find_robot_in_room(remotes) {
            Some(id) => {
                return SearchStep::Found(id);
            },
            None => {},
        }
        if self.ticks_left == 0 {
            SearchStep::GiveUp(PortalError::NoPeer)
        } else {
            self.ticks_left = self.ticks_left - 1;
            SearchStep::Wait(ROBOT_POLL_INTERVAL_MS)
        }
    }
}

} // verus!
