//! A subscriber of a topic: a client identifier and the QoS it asked for.

use crate::constants::SubackReturnCode;
use crate::text::{copy_string, same_string};
use vstd::prelude::*;

verus! {

/// What a subscriber entry holds.
pub struct UserQosView {
    pub user: Seq<char>,
    pub qos: u8,
}

/// A subscriber entry.
pub struct UserQos {
    user: String,
    qos: u8,
}

impl View for UserQos {
    type V = UserQosView;

    closed spec fn view(&self) -> UserQosView {
        UserQosView { user: self.user@, qos: self.qos }
    }
}

impl Clone for UserQos {
    fn clone(&self) -> (r: Self)
        ensures
            r@ == self@,
    {
        UserQos { user: copy_string(&self.user), qos: self.qos }
    }
}

impl PartialEq for UserQos {
    fn eq(&self, other: &UserQos) -> (r: bool) {
        same_string(&self.user, &other.user) && self.qos == other.qos
    }
}

impl vstd::std_specs::cmp::PartialEqSpecImpl for UserQos {
    open spec fn obeys_eq_spec() -> bool {
        true
    }

    open spec fn eq_spec(&self, other: &UserQos) -> bool {
        self@ == other@
    }
}

impl UserQos {
    pub fn new(user: String, qos: u8) -> (r: Self)
        ensures
            r@ == (UserQosView { user: user@, qos }),
    {
        UserQos { user, qos }
    }

    pub fn get_user(&self) -> (r: String)
        ensures
            r@ == self@.user,
    {
        copy_string(&self.user)
    }

    pub fn get_qos(&self) -> (r: u8)
        ensures
            r == self@.qos,
    {
        self.qos
    }

    /// Whether this entry is for `user`.
    pub fn is_user(&self, user: &String) -> (r: bool)
        ensures
            r == (self@.user == user@),
    {
        same_string(&self.user, user)
    }

    /// Whether two entries hold the same client and QoS.
    pub fn same_as(&self, other: &UserQos) -> (r: bool)
        ensures
            r == (self@ == other@),
    {
        same_string(&self.user, &other.user) && self.qos == other.qos
    }
}

/// The views of a list of entries.
pub open spec fn qos_views(l: Seq<UserQos>) -> Seq<UserQosView> {
    l.map_values(|u: UserQos| u@)
}

/// Whether `user` has an entry in `l`.
pub open spec fn has_user(l: Seq<UserQosView>, user: Seq<char>) -> bool {
    exists|j: int| 0 <= j < l.len() && #[trigger] l[j].user == user
}

/// No client has two entries.
pub open spec fn users_unique(l: Seq<UserQosView>) -> bool {
    forall|i: int, j: int| 0 <= i < j < l.len() ==> #[trigger] l[i].user != #[trigger] l[j].user
}

/// `j` is the first entry of `user` in `l`.
pub open spec fn first_user_index(l: Seq<UserQosView>, user: Seq<char>, j: int) -> bool {
    &&& 0 <= j < l.len()
    &&& l[j].user == user
    &&& forall|k: int| 0 <= k < j ==> #[trigger] l[k].user != user
}

/// `new` is `old` with the QoS of `user` set to `qos`: its first entry is
/// replaced, or one is added at the end when it has none.
pub open spec fn upserted(old: Seq<UserQosView>, new: Seq<UserQosView>, user: Seq<char>, qos: u8) -> bool {
    ||| exists|j: int| first_user_index(old, user, j) && new == old.update(j, UserQosView { user, qos })
    ||| !has_user(old, user) && new == old.push(UserQosView { user, qos })
}

/// `new` is `old` without the first entry of `user`, if it has one.
pub open spec fn user_removed(old: Seq<UserQosView>, new: Seq<UserQosView>, user: Seq<char>) -> bool {
    ||| exists|j: int| first_user_index(old, user, j) && new == old.remove(j)
    ||| !has_user(old, user) && new == old
}

/// The SUBACK code for a granted QoS: a failure for anything above 1.
pub open spec fn suback_code_for(qos: u8) -> SubackReturnCode {
    if qos == 0 {
        SubackReturnCode::MaxQoS0
    } else if qos == 1 {
        SubackReturnCode::MaxQoS1
    } else {
        SubackReturnCode::Failure
    }
}

/// Copies a list of entries.
pub fn copy_user_qos_list(l: &Vec<UserQos>) -> (r: Vec<UserQos>)
    ensures
        qos_views(r@) == qos_views(l@),
{
    let mut r: Vec<UserQos> = Vec::new();
    let mut i: usize = 0;
    while i < l.len()
        invariant
            i <= l@.len(),
            qos_views(r@) == qos_views(l@).take(i as int),
        decreases l.len() - i,
    {
        let u = l[i].clone();
        let ghost before = qos_views(r@);
        r.push(u);
        assert(qos_views(r@) =~= before.push(u@));
        i = i + 1;
        assert(qos_views(r@) =~= qos_views(l@).take(i as int));
    }
    assert(qos_views(l@).take(l@.len() as int) =~= qos_views(l@));
    r
}

/// The position of the first entry of `user`, if any.
pub fn user_position(userqos: &Vec<UserQos>, user: &String) -> (r: Option<usize>)
    ensures
        match r {
            Some(j) => first_user_index(qos_views(userqos@), user@, j as int),
            None => !has_user(qos_views(userqos@), user@),
        },
{
    let ghost l = qos_views(userqos@);
    let mut i: usize = 0;
    while i < userqos.len()
        invariant
            l == qos_views(userqos@),
            i <= l.len(),
            forall|k: int| 0 <= k < i ==> #[trigger] l[k].user != user@,
        decreases userqos.len() - i,
    {
        if userqos[i].is_user(user) {
            return Some(i);
        }
        i = i + 1;
    }
    None
}

/// Whether `user` has an entry in the list.
pub fn contains_user(userqos: &Vec<UserQos>, user: &String) -> (r: bool)
    ensures
        r == has_user(qos_views(userqos@), user@),
{
    user_position(userqos, user).is_some()
}

/// Sets the QoS of the first entry of `user`; a list without one is left
/// as it is.
pub fn replace_qos(userqos: Vec<UserQos>, user: String, qos: u8) -> (r: Vec<UserQos>)
    ensures
        has_user(qos_views(userqos@), user@) ==> upserted(qos_views(userqos@), qos_views(r@), user@, qos),
        !has_user(qos_views(userqos@), user@) ==> qos_views(r@) == qos_views(userqos@),
{
    let mut userqos = userqos;
    match user_position(&userqos, &user) {
        Some(j) => {
            let ghost old_l = qos_views(userqos@);
            let entry = UserQos::new(user, qos);
            userqos.set(j, entry);
            assert(qos_views(userqos@) =~= old_l.update(j as int, entry@));
            userqos
        },
        None => userqos,
    }
}

/// The first entry of `user`, or `Err(false)` when it has none.
pub fn find_userqos(userqos_list: &Vec<UserQos>, user: &String) -> (r: Result<UserQos, bool>)
    ensures
        match r {
            Ok(u) => exists|j: int| first_user_index(qos_views(userqos_list@), user@, j) && u@ == qos_views(userqos_list@)[j],
            Err(b) => !b && !has_user(qos_views(userqos_list@), user@),
        },
{
    match user_position(userqos_list, user) {
        Some(j) => Ok(userqos_list[j].clone()),
        None => Err(false),
    }
}

/// Removes the first entry equal to `userqos`; a list without one is left
/// as it is.
pub fn remove_from_qos(userqos_list: Vec<UserQos>, userqos: &UserQos) -> (r: Vec<UserQos>)
    ensures
        (exists|j: int|
            0 <= j < userqos_list@.len() && qos_views(userqos_list@)[j] == userqos@ && (forall|k: int|
                0 <= k < j ==> #[trigger] qos_views(userqos_list@)[k] != userqos@) && qos_views(r@)
                == qos_views(userqos_list@).remove(j)) || ((forall|k: int|
            0 <= k < userqos_list@.len() ==> #[trigger] qos_views(userqos_list@)[k] != userqos@)
            && qos_views(r@) == qos_views(userqos_list@)),
{
    let ghost l = qos_views(userqos_list@);
    let mut list = userqos_list;
    let mut i: usize = 0;
    while i < list.len()
        invariant
            l == qos_views(list@),
            l == qos_views(userqos_list@),
            i <= l.len(),
            forall|k: int| 0 <= k < i ==> #[trigger] l[k] != userqos@,
        decreases list.len() - i,
    {
        if list[i].same_as(userqos) {
            assert(l[i as int] == userqos@);
            list.remove(i);
            assert(qos_views(list@) =~= l.remove(i as int));
            assert(l == qos_views(userqos_list@));
            return list;
        }
        i = i + 1;
    }
    list
}

/// The SUBACK code for a granted QoS.
pub fn suback_ret_code(qos: u8) -> (r: SubackReturnCode)
    ensures
        r == suback_code_for(qos),
{
    if qos == 0 {
        SubackReturnCode::MaxQoS0
    } else if qos == 1 {
        SubackReturnCode::MaxQoS1
    } else {
        SubackReturnCode::Failure
    }
}

} // verus!
