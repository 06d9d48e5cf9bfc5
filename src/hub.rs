use vstd::prelude::*;
use crate::frame::framed;
use crate::message::{
    MsgModel, MsgValue, convert_option, create_update, date_model, msgpack_of, option_model,
    pairs_model, serialize_date, text, update_message,
};
use crate::registry::{Registry, conns_of};
use crate::timestamp::Timestamp;
use crate::update::{UpdateType, update_code};

verus! {

/// What the hub needs to know of a user.
pub struct User {
    pub uuid: String,
    pub updated_at: Timestamp,
}

/// What the hub needs to know of a folder.
pub struct Folder {
    pub uuid: String,
    pub user_uuid: String,
    pub updated_at: Timestamp,
}

/// What the hub needs to know of a cipher: it belongs to a user or to an
/// organization.
pub struct Cipher {
    pub uuid: String,
    pub user_uuid: Option<String>,
    pub organization_uuid: Option<String>,
    pub updated_at: Timestamp,
}

/// One frame and the connections it goes to, in order. Each send is attempted
/// on its own: a failed one does not keep the frame from the others.
pub struct Outbox {
    pub frame: Vec<u8>,
    pub targets: Vec<u64>,
}

/// The connections of each user in `users`, user after user.
pub open spec fn fan_out(m: Map<Seq<char>, Seq<u64>>, users: Seq<Seq<char>>) -> Seq<u64>
    decreases users.len(),
{
    if users.len() == 0 {
        Seq::empty()
    } else {
        fan_out(m, users.drop_last()) + conns_of(m, users.last())
    }
}

/// The contents of an optional string.
pub open spec fn opt_str(o: Option<String>) -> Option<Seq<char>> {
    match o {
        Some(s) => Some(s@),
        None => None,
    }
}

/// The payload of a user update.
pub open spec fn user_payload(uuid: Seq<char>, at: Timestamp) -> Seq<(MsgModel, MsgModel)> {
    seq![
        (MsgModel::Str("UserId"@), MsgModel::Str(uuid)),
        (MsgModel::Str("RevisionDate"@), date_model(at)),
    ]
}

/// The payload of a folder update.
pub open spec fn folder_payload(f: Folder) -> Seq<(MsgModel, MsgModel)> {
    seq![
        (MsgModel::Str("Id"@), MsgModel::Str(f.uuid@)),
        (MsgModel::Str("UserId"@), MsgModel::Str(f.user_uuid@)),
        (MsgModel::Str("RevisionDate"@), date_model(f.updated_at)),
    ]
}

/// The payload of a cipher update.
pub open spec fn cipher_payload(c: Cipher) -> Seq<(MsgModel, MsgModel)> {
    seq![
        (MsgModel::Str("Id"@), MsgModel::Str(c.uuid@)),
        (MsgModel::Str("UserId"@), option_model(opt_str(c.user_uuid))),
        (MsgModel::Str("OrganizationId"@), option_model(opt_str(c.organization_uuid))),
        (MsgModel::Str("CollectionIds"@), MsgModel::Nil),
        (MsgModel::Str("RevisionDate"@), date_model(c.updated_at)),
    ]
}

/// The payload of a log-out notice.
pub open spec fn logout_payload(uuid: Seq<char>) -> Seq<(MsgModel, MsgModel)> {
    seq![(MsgModel::Str("UserId"@), MsgModel::Str(uuid))]
}

/// The frame of an update of kind `ut` with the given payload.
pub open spec fn update_frame(payload: Seq<(MsgModel, MsgModel)>, ut: UpdateType) -> Seq<u8> {
    framed(msgpack_of(update_message(payload, update_code(ut))))
}

/// The hub: the registry of live connections, and the updates that go to them.
pub struct WebSocketUsers {
    pub registry: Registry,
}

impl WebSocketUsers {
    /// A hub with no connection.
    pub fn new() -> (r: WebSocketUsers)
        ensures
            r.registry@ == crate::registry::empty_table(),
            r.registry.wf(),
    {
        WebSocketUsers { registry: Registry::new() }
    }

    /// The connections of every user in `user_uuids`, user after user.
    pub fn targets(&self, user_uuids: &Vec<String>) -> (r: Vec<u64>)
        ensures
            r@ == fan_out(self.registry@, user_uuids@.map_values(|s: String| s@)),
    {
        let ghost users = user_uuids@.map_values(|s: String| s@);
        let mut out: Vec<u64> = Vec::new();
        let mut i: usize = 0;
        while i < user_uuids.len()
            invariant
                i <= user_uuids@.len(),
                users == user_uuids@.map_values(|s: String| s@),
                out@ == fan_out(self.registry@, users.subrange(0, i as int)),
            decreases user_uuids.len() - i,
        {
            let mut conns = self.registry.lookup(user_uuids[i].as_str());
            let ghost before = out@;
            out.append(&mut conns);
            proof {
                let p = users.subrange(0, i as int + 1);
                assert(p.drop_last() =~= users.subrange(0, i as int));
                assert(p.last() == user_uuids@[i as int]@);
            }
            i = i + 1;
        }
        assert(users.subrange(0, users.len() as int) =~= users);
        out
    }

    /// The update of a user's account, for that user's connections.
    pub fn send_user_update(&self, ut: UpdateType, user: &User) -> (r: Outbox)
        ensures
            r.frame@ == update_frame(user_payload(user.uuid@, user.updated_at), ut),
            r.targets@ == conns_of(self.registry@, user.uuid@),
    {
        let payload = vec![
            (text("UserId"), MsgValue::Str(user.uuid.clone())),
            (text("RevisionDate"), serialize_date(user.updated_at)),
        ];
        assert(pairs_model(payload@) =~= user_payload(user.uuid@, user.updated_at));
        Outbox { frame: create_update(payload, ut), targets: self.registry.lookup(user.uuid.as_str()) }
    }

    /// The update of a folder, for its owner's connections.
    pub fn send_folder_update(&self, ut: UpdateType, folder: &Folder) -> (r: Outbox)
        ensures
            r.frame@ == update_frame(folder_payload(*folder), ut),
            r.targets@ == conns_of(self.registry@, folder.user_uuid@),
    {
        let payload = vec![
            (text("Id"), MsgValue::Str(folder.uuid.clone())),
            (text("UserId"), MsgValue::Str(folder.user_uuid.clone())),
            (text("RevisionDate"), serialize_date(folder.updated_at)),
        ];
        assert(pairs_model(payload@) =~= folder_payload(*folder));
        Outbox {
            frame: create_update(payload, ut),
            targets: self.registry.lookup(folder.user_uuid.as_str()),
        }
    }

    /// The update of a cipher, for the connections of every user in
    /// `user_uuids`: those entitled to see it.
    pub fn send_cipher_update(&self, ut: UpdateType, cipher: &Cipher, user_uuids: &Vec<String>) -> (r:
        Outbox)
        ensures
            r.frame@ == update_frame(cipher_payload(*cipher), ut),
            r.targets@ == fan_out(self.registry@, user_uuids@.map_values(|s: String| s@)),
    {
        let user_uuid = convert_option(cipher.user_uuid.clone());
        let org_uuid = convert_option(cipher.organization_uuid.clone());
        let payload = vec![
            (text("Id"), MsgValue::Str(cipher.uuid.clone())),
            (text("UserId"), user_uuid),
            (text("OrganizationId"), org_uuid),
            (text("CollectionIds"), MsgValue::Nil),
            (text("RevisionDate"), serialize_date(cipher.updated_at)),
        ];
        assert(pairs_model(payload@) =~= cipher_payload(*cipher));
        Outbox { frame: create_update(payload, ut), targets: self.targets(user_uuids) }
    }

    /// The notice that ends a user's sessions, for that user's connections.
    pub fn send_logout(&self, user_uuid: &String) -> (r: Outbox)
        ensures
            r.frame@ == update_frame(logout_payload(user_uuid@), UpdateType::LogOut),
            r.targets@ == conns_of(self.registry@, user_uuid@),
    {
        let payload = vec![(text("UserId"), MsgValue::Str(user_uuid.clone()))];
        assert(pairs_model(payload@) =~= logout_payload(user_uuid@));
        Outbox {
            frame: create_update(payload, UpdateType::LogOut),
            targets: self.registry.lookup(user_uuid.as_str()),
        }
    }
}

/// Every live connection of every user an update is for is among its targets,
/// whatever happens to the sends to the other targets: the list is fixed before
/// any send.
pub proof fn lemma_fan_out_reaches_all(
    m: Map<Seq<char>, Seq<u64>>,
    users: Seq<Seq<char>>,
    i: int,
    c: u64,
)
    requires
        0 <= i < users.len(),
        conns_of(m, users[i]).contains(c),
    ensures
        fan_out(m, users).contains(c),
    decreases users.len(),
{
    let p = users.drop_last();
    let a = fan_out(m, p);
    let b = conns_of(m, users.last());
    let j = choose|j: int| 0 <= j < b.len() && b[j] == c;
    if i == users.len() - 1 {
        assert((a + b)[a.len() + j] == c);
    } else {
        assert(p[i] == users[i]);
        lemma_fan_out_reaches_all(m, p, i, c);
        let k = choose|k: int| 0 <= k < a.len() && a[k] == c;
        assert((a + b)[k] == c);
    }
}

} // verus!
