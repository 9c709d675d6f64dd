//! Who is in the room and who is in control, stated apart from how it is
//! kept.
use crate::controller::{ControllerView, NoticeView, Participant};
use crate::types::{ActionSubscription, Role};
use vstd::prelude::*;

verus! {

/// A participant has the role that its attribute names, and none where the
/// attribute is missing or names no role.
pub proof fn law_roles_are_read_from_the_attribute(attrs: Map<Seq<char>, String>)
    ensures
        ({
            let key = "lk.portal.role"@;
            let role = crate::controller::role_of(attrs);
            &&& !attrs.contains_key(key) ==> role is None
            &&& attrs.contains_key(key) ==> {
                &&& role == Some(Role::Robot) <==> attrs[key]@ == "robot"@
                &&& role == Some(Role::Operator) <==> attrs[key]@ == "operator"@
                &&& role == Some(Role::Observer) <==> attrs[key]@ == "observer"@
            }
        }),
{
    reveal_strlit("robot");
    reveal_strlit("operator");
    reveal_strlit("observer");
    assert("robot"@.len() == 5);
    assert("operator"@[1] != "observer"@[1]);
}

/// The operator in control is the one that the attribute names; an empty or
/// missing one names nobody. What is written for an identity reads back as it.
pub proof fn law_control_is_read_from_the_attribute(
    attrs: Map<Seq<char>, String>,
    id: Option<Seq<char>>,
)
    requires
        id matches Some(t) ==> t.len() > 0,
    ensures
        ({
            let key = "lk.portal.active_operator"@;
            let named = crate::controller::named_operator(attrs);
            &&& !attrs.contains_key(key) ==> named is None
            &&& attrs.contains_key(key) && attrs[key]@.len() == 0 ==> named is None
            &&& attrs.contains_key(key) && attrs[key]@.len() > 0 ==> named == Some(attrs[key]@)
        }),
        crate::controller::non_empty(crate::controller::identity_text(id)) == id,
        id is None ==> crate::controller::identity_text(id).len() == 0,
{
    reveal_strlit("");
}

/// A robot that comes back takes up the control that its own attribute names;
/// without one it keeps what it knows. Nothing else changes.
pub proof fn law_a_robot_takes_up_its_attribute(c: ControllerView, attrs: Map<Seq<char>, String>)
    ensures
        ({
            let key = "lk.portal.active_operator"@;
            let next = crate::controller::seeded(c, attrs);
            &&& !attrs.contains_key(key) ==> next == c
            &&& attrs.contains_key(key) ==> next.active_operator
                == crate::controller::named_operator(attrs)
            &&& next.operators == c.operators && next.observers == c.observers
                && next.robot_identity == c.robot_identity
        }),
{
}

/// A participant that is seen is known by its role from then on, and nobody
/// else is touched. Only a robot that is seen by another side says who is in
/// control.
pub proof fn law_participants_are_known_by_role(
    c: ControllerView,
    self_role: Role,
    identity: Seq<char>,
    attrs: Map<Seq<char>, String>,
    other: Seq<char>,
)
    ensures
        ({
            let role = crate::controller::role_of(attrs);
            let next = crate::controller::after_seeing(c, self_role, identity, attrs);
            &&& next.operators.contains(other) <==> c.operators.contains(other) || (other
                == identity && role == Some(Role::Operator))
            &&& next.observers.contains(other) <==> c.observers.contains(other) || (other
                == identity && role == Some(Role::Observer))
            &&& role == Some(Role::Robot) ==> next.robot_identity == Some(identity)
            &&& role != Some(Role::Robot) ==> next.robot_identity == c.robot_identity
            &&& role == Some(Role::Robot) && self_role != Role::Robot ==> next.active_operator
                == crate::controller::named_operator(attrs)
            &&& role != Some(Role::Robot) || self_role == Role::Robot ==> next.active_operator
                == c.active_operator
        }),
{
}

/// The application is told exactly of an operator that was not known before
/// and of a change of who is in control, to the one in control now.
pub proof fn law_changes_are_told(
    c: ControllerView,
    self_role: Role,
    identity: Seq<char>,
    attrs: Map<Seq<char>, String>,
)
    ensures
        ({
            let next = crate::controller::after_seeing(c, self_role, identity, attrs);
            let told = crate::controller::told_on_seeing(c, self_role, identity, attrs);
            &&& told matches Some(NoticeView::OperatorJoined(id)) ==> id == identity
            &&& told matches Some(NoticeView::ActiveOperatorChanged(id)) ==> id
                == next.active_operator
            &&& !(told matches Some(NoticeView::OperatorLeft(_)))
            &&& (told matches Some(NoticeView::OperatorJoined(_))) <==> (next.operators.contains(
                identity,
            ) && !c.operators.contains(identity))
            &&& (told matches Some(NoticeView::ActiveOperatorChanged(_))) <==> next.active_operator
                != c.active_operator
        }),
{
}

/// Of a room full of participants, the operators and the observers among them
/// are known besides those known before; the robot is the last one that says
/// it is.
pub proof fn law_a_room_is_known_participant_by_participant(
    c: ControllerView,
    self_role: Role,
    all: Seq<Participant>,
    x: Seq<char>,
)
    ensures
        ({
            let next = crate::controller::after_seeing_all(c, self_role, all);
            &&& next.operators.contains(x) <==> c.operators.contains(x) || exists|i: int|
                0 <= i < all.len() && (#[trigger] all[i]).identity@ == x
                    && crate::controller::role_of(all[i].attributes@) == Some(Role::Operator)
            &&& next.observers.contains(x) <==> c.observers.contains(x) || exists|i: int|
                0 <= i < all.len() && (#[trigger] all[i]).identity@ == x
                    && crate::controller::role_of(all[i].attributes@) == Some(Role::Observer)
            &&& (forall|i: int|
                0 <= i < all.len() ==> crate::controller::role_of(
                    (#[trigger] all[i]).attributes@,
                ) != Some(Role::Robot)) ==> next.robot_identity == c.robot_identity
                && next.active_operator == c.active_operator
            &&& forall|i: int|
                0 <= i < all.len() && crate::controller::role_of((#[trigger] all[i]).attributes@)
                    == Some(Role::Robot) && (forall|j: int|
                    i < j < all.len() ==> crate::controller::role_of(
                        (#[trigger] all[j]).attributes@,
                    ) != Some(Role::Robot)) ==> next.robot_identity == Some(all[i].identity@)
                    && (self_role != Role::Robot ==> next.active_operator
                    == crate::controller::named_operator(all[i].attributes@))
        }),
    decreases all.len(),
{
    if all.len() > 0 {
        let front = all.drop_last();
        law_a_room_is_known_participant_by_participant(c, self_role, front, x);
        let before = crate::controller::after_seeing_all(c, self_role, front);
        let next = crate::controller::after_seeing_all(c, self_role, all);
        let n = all.len() - 1;
        assert(forall|i: int| 0 <= i < n ==> #[trigger] front[i] == all[i]);
        if next.operators.contains(x) && !c.operators.contains(x) {
            if before.operators.contains(x) {
                let i = choose|i: int|
                    0 <= i < front.len() && (#[trigger] front[i]).identity@ == x
                        && crate::controller::role_of(front[i].attributes@) == Some(
                        Role::Operator,
                    );
                assert(all[i].identity@ == x);
            } else {
                assert(all[n].identity@ == x);
            }
        }
        if next.observers.contains(x) && !c.observers.contains(x) {
            if before.observers.contains(x) {
                let i = choose|i: int|
                    0 <= i < front.len() && (#[trigger] front[i]).identity@ == x
                        && crate::controller::role_of(front[i].attributes@) == Some(
                        Role::Observer,
                    );
                assert(all[i].identity@ == x);
            } else {
                assert(all[n].identity@ == x);
            }
        }
        assert forall|i: int|
            0 <= i < all.len() && (#[trigger] all[i]).identity@ == x
                && crate::controller::role_of(all[i].attributes@) == Some(
                Role::Operator,
            ) implies next.operators.contains(x) by {
            if i < n {
                assert(front[i].identity@ == x);
            }
        }
        assert forall|i: int|
            0 <= i < all.len() && (#[trigger] all[i]).identity@ == x
                && crate::controller::role_of(all[i].attributes@) == Some(
                Role::Observer,
            ) implies next.observers.contains(x) by {
            if i < n {
                assert(front[i].identity@ == x);
            }
        }
        if forall|i: int|
            0 <= i < all.len() ==> crate::controller::role_of((#[trigger] all[i]).attributes@)
                != Some(Role::Robot) {
            assert forall|i: int| 0 <= i < front.len() implies crate::controller::role_of(
                (#[trigger] front[i]).attributes@,
            ) != Some(Role::Robot) by {
                assert(all[i] == front[i]);
            }
            assert(crate::controller::role_of(all[n].attributes@) != Some(Role::Robot));
        }
        assert forall|i: int|
            0 <= i < all.len() && crate::controller::role_of((#[trigger] all[i]).attributes@)
                == Some(Role::Robot) && (forall|j: int|
                i < j < all.len() ==> crate::controller::role_of((#[trigger] all[j]).attributes@)
                    != Some(Role::Robot)) implies next.robot_identity == Some(all[i].identity@) && (
        self_role != Role::Robot ==> next.active_operator == crate::controller::named_operator(
            all[i].attributes@,
        )) by {
            if i < n {
                assert(front[i] == all[i]);
                assert forall|j: int| i < j < front.len() implies crate::controller::role_of(
                    (#[trigger] front[j]).attributes@,
                ) != Some(Role::Robot) by {
                    assert(all[j] == front[j]);
                }
                assert(crate::controller::role_of(all[n].attributes@) != Some(Role::Robot));
            }
        }
    }
}

/// The application is told of each participant of a room in its turn.
pub proof fn law_a_room_is_told_in_order(
    c: ControllerView,
    self_role: Role,
    all: Seq<Participant>,
    p: Participant,
)
    ensures
        crate::controller::told_on_seeing_all(c, self_role, Seq::empty()).len() == 0,
        ({
            let known = crate::controller::after_seeing_all(c, self_role, all);
            let before = crate::controller::told_on_seeing_all(c, self_role, all);
            let after = crate::controller::told_on_seeing_all(c, self_role, all.push(p));
            let next = crate::controller::after_seeing_all(c, self_role, all.push(p));
            &&& next == crate::controller::after_seeing(
                known,
                self_role,
                p.identity@,
                p.attributes@,
            )
            &&& after.len() >= before.len() && after.take(before.len() as int) == before
            &&& after.len() == before.len() <==> next.active_operator == known.active_operator
                && (next.operators.contains(p.identity@) ==> known.operators.contains(p.identity@))
            &&& after.len() <= before.len() + 1
            &&& after.len() == before.len() + 1 ==> Some(after.last())
                == crate::controller::told_on_seeing(
                known,
                self_role,
                p.identity@,
                p.attributes@,
            )
        }),
{
    assert(all.push(p).drop_last() =~= all);
    let known = crate::controller::after_seeing_all(c, self_role, all);
    law_changes_are_told(known, self_role, p.identity@, p.attributes@);
    let before = crate::controller::told_on_seeing_all(c, self_role, all);
    let after = crate::controller::told_on_seeing_all(c, self_role, all.push(p));
    assert(after.take(before.len() as int) =~= before);
}

/// A participant that leaves is forgotten under every role; everyone else
/// stays, and so does control.
pub proof fn law_who_leaves_is_forgotten(
    c: ControllerView,
    identity: Seq<char>,
    other: Seq<char>,
)
    ensures
        ({
            let next = crate::controller::after_leaving(c, identity);
            &&& next.operators.contains(other) <==> c.operators.contains(other) && other
                != identity
            &&& next.observers.contains(other) <==> c.observers.contains(other) && other
                != identity
            &&& c.robot_identity == Some(identity) ==> next.robot_identity is None
            &&& c.robot_identity != Some(identity) ==> next.robot_identity == c.robot_identity
            &&& next.active_operator == c.active_operator
        }),
{
}

/// The robot of a room is the first participant that says it is one.
pub proof fn law_the_first_robot_counts(all: Seq<Participant>, i: int)
    ensures
        (forall|j: int|
            0 <= j < all.len() ==> crate::controller::role_of((#[trigger] all[j]).attributes@)
                != Some(Role::Robot)) ==> crate::controller::first_robot(all) is None,
        0 <= i < all.len() && crate::controller::role_of(all[i].attributes@) == Some(Role::Robot)
            && (forall|j: int|
            0 <= j < i ==> crate::controller::role_of((#[trigger] all[j]).attributes@) != Some(
                Role::Robot,
            )) ==> crate::controller::first_robot(all) == Some(all[i].identity@),
    decreases all.len(),
{
    if all.len() > 0 {
        let rest = all.skip(1);
        law_the_first_robot_counts(rest, i - 1);
        if crate::controller::role_of(all[0].attributes@) != Some(Role::Robot) {
            if forall|j: int|
                0 <= j < all.len() ==> crate::controller::role_of((#[trigger] all[j]).attributes@)
                    != Some(Role::Robot) {
                assert forall|j: int| 0 <= j < rest.len() implies crate::controller::role_of(
                    (#[trigger] rest[j]).attributes@,
                ) != Some(Role::Robot) by {
                    assert(rest[j] == all[j + 1]);
                }
            }
            if 0 < i < all.len() && (forall|j: int|
                0 <= j < i ==> crate::controller::role_of((#[trigger] all[j]).attributes@)
                    != Some(Role::Robot)) {
                assert(rest[i - 1] == all[i]);
                assert forall|j: int| 0 <= j < i - 1 implies crate::controller::role_of(
                    (#[trigger] rest[j]).attributes@,
                ) != Some(Role::Robot) by {
                    assert(rest[j] == all[j + 1]);
                }
            }
        } else if 0 < i < all.len() {
            assert(crate::controller::role_of(all[0].attributes@) == Some(Role::Robot));
        }
    }
}

/// The robot works with the operator in control, everyone else with the robot.
pub proof fn law_sides_work_with_each_other(c: ControllerView, role: Role)
    ensures
        role == Role::Robot ==> crate::controller::counterpart(c, role) == c.active_operator,
        role != Role::Robot ==> crate::controller::counterpart(c, role) == c.robot_identity,
{
}

/// An action passes only with a sender: at the robot, and at a side that
/// follows the active operator, where the sender is in control; at a side that
/// follows all, always; at a side that follows nobody, never.
pub proof fn law_actions_pass_by_subscription(
    role: Role,
    subscription: ActionSubscription,
    active: Option<Seq<char>>,
    sender: Option<Seq<char>>,
)
    ensures
        ({
            let passes = crate::controller::gate_passes(role, subscription, active, sender);
            &&& sender is None ==> !passes
            &&& sender is Some && (role == Role::Robot || subscription
                == ActionSubscription::Active) ==> (passes <==> active == sender)
            &&& role != Role::Robot && subscription == ActionSubscription::Off ==> !passes
            &&& sender is Some && role != Role::Robot && subscription == ActionSubscription::All
                ==> passes
        }),
{
}

/// An optional text is the text that is there, and none where none is; an
/// optional notice likewise.
pub proof fn law_optional_texts_are_texts(
    s: Option<String>,
    n: Option<crate::controller::Notice>,
)
    ensures
        s is None ==> crate::controller::opt_text(s) is None,
        s matches Some(t) ==> crate::controller::opt_text(s) == Some(t@),
        n is None ==> crate::controller::notice_view(n) is None,
        n matches Some(x) ==> crate::controller::notice_view(n) == Some(x@),
{
}

/// A notice says what it is told with.
pub proof fn law_notices_say_whom_they_are_of(n: crate::controller::Notice)
    ensures
        n matches crate::controller::Notice::OperatorJoined(id) ==> n@
            == NoticeView::OperatorJoined(id@),
        n matches crate::controller::Notice::OperatorLeft(id) ==> n@ == NoticeView::OperatorLeft(
            id@,
        ),
        n matches crate::controller::Notice::ActiveOperatorChanged(Some(id)) ==> n@
            == NoticeView::ActiveOperatorChanged(Some(id@)),
        n matches crate::controller::Notice::ActiveOperatorChanged(None) ==> n@
            == NoticeView::ActiveOperatorChanged(None),
{
}

} // verus!
