//! The packets that the proxy writes itself: the server list entry, the reason of a disconnect and
//! the keepalive of a login.

use vstd::prelude::*;
use vstd::utf8::encode_utf8;

use crate::config::{StatusConfig, StatusView};
use crate::json::{
    empty_object, int_value, json_document, json_text, json_tree, list_value, member_of,
    plain_within, render, set_member, text_value, JsonTree,
};
use crate::probe::{document_version, law_document_round_trip, reply_version, ProbeError};
use crate::protocol::packet::{
    encode_packet, encode_string, packet_bytes, packet_outcome, string_bytes, MAX_PACKET_LEN,
};
use crate::protocol::varint::{encode_varint, varint_bytes};

verus! {

/// The server list entry: the version, the players and the message of the day.
pub open spec fn status_tree(motd: Seq<char>, status: StatusView, online: int) -> JsonTree {
    JsonTree::Object(
        map![
            "version"@ => JsonTree::Object(map![
                "name"@ => JsonTree::Text(status.version_name),
                "protocol"@ => JsonTree::Int(status.protocol_version),
            ]),
            "players"@ => JsonTree::Object(map![
                "max"@ => JsonTree::Int(status.max_players),
                "online"@ => JsonTree::Int(online),
                "sample"@ => JsonTree::List(Seq::empty()),
            ]),
            "description"@ => JsonTree::Object(map![
                "text"@ => JsonTree::Text(motd),
            ]),
        ],
    )
}

/// The reason of a disconnect.
pub open spec fn disconnect_tree(reason: Seq<char>) -> JsonTree {
    JsonTree::Object(map!["text"@ => JsonTree::Text(reason)])
}

/// A packet of number 0 that holds one string.
pub open spec fn json_packet_bytes(json: Seq<char>) -> Seq<u8> {
    packet_bytes(0, string_bytes(json))
}

/// Writes the server list entry as JSON.
pub fn build_status_json(motd: &str, cfg: &StatusConfig, online_players: i32) -> (json: String)
    ensures
        json@ == json_text(status_tree(motd@, cfg@, online_players as int)),
        json_document(encode_utf8(json@)) == Some(
            status_tree(motd@, cfg@, online_players as int),
        ),
{
    let mut version = empty_object();
    set_member(&mut version, "name", text_value(cfg.version_name.as_str()));
    set_member(&mut version, "protocol", int_value(cfg.protocol_version));
    let mut players = empty_object();
    set_member(&mut players, "max", int_value(cfg.max_players));
    set_member(&mut players, "online", int_value(online_players));
    let sample = list_value(Vec::new());
    assert(json_tree(sample)->List_0 =~= Seq::empty());
    set_member(&mut players, "sample", sample);
    let mut description = empty_object();
    set_member(&mut description, "text", text_value(motd));
    let mut entry = empty_object();
    set_member(&mut entry, "version", version);
    set_member(&mut entry, "players", players);
    set_member(&mut entry, "description", description);
    proof {
        let tree = status_tree(motd@, cfg@, online_players as int);
        assert(json_tree(entry) == tree);
        reveal_with_fuel(plain_within, 4);
        assert(plain_within(tree, 127));
    }
    render(&entry)
}

/// Puts a JSON text into a packet of number 0.
pub fn encode_json_packet(json: &str) -> (frame: Vec<u8>)
    ensures
        frame@ == json_packet_bytes(json@),
{
    encode_packet(0x00, encode_string(json).as_slice())
}

/// Writes the server list entry as a status response. The document in it reads back as the entry.
/// Whoever reads it as a probe does reads the version that `cfg` names, where the packet is short
/// enough to be read at all.
pub fn encode_status_response(motd: &str, cfg: &StatusConfig, online: i32) -> (frame: Vec<u8>)
    ensures
        frame@ == json_packet_bytes(json_text(status_tree(motd@, cfg@, online as int))),
        json_document(encode_utf8(json_text(status_tree(motd@, cfg@, online as int)))) == Some(
            status_tree(motd@, cfg@, online as int),
        ),
        1 + string_bytes(json_text(status_tree(motd@, cfg@, online as int))).len()
            <= MAX_PACKET_LEN ==> (packet_outcome(frame@) matches Ok((packet, used)) && used
            == frame@.len() && reply_version(packet) == Ok::<(int, Seq<char>), ProbeError>(
            (cfg@.protocol_version, cfg@.version_name),
        )),
{
    let json: String = build_status_json(motd, cfg, online);
    proof {
        if 1 + string_bytes(json@).len() <= MAX_PACKET_LEN {
            law_document_round_trip(json@);
            lemma_status_version(motd@, cfg@, online as int);
        }
    }
    encode_json_packet(json.as_str())
}

/// The server list entry names the version that `status` names.
proof fn lemma_status_version(motd: Seq<char>, status: StatusView, online: int)
    requires
        i32::MIN <= status.protocol_version <= i32::MAX,
    ensures
        document_version(Some(status_tree(motd, status, online))) == Ok::<
            (int, Seq<char>),
            ProbeError,
        >((status.protocol_version, status.version_name)),
{
    reveal_strlit("version");
    reveal_strlit("players");
    reveal_strlit("description");
    reveal_strlit("name");
    reveal_strlit("protocol");
    let tree = status_tree(motd, status, online);
    assert("version"@[0] != "players"@[0]);
    assert("version"@.len() != "description"@.len());
    assert("name"@.len() != "protocol"@.len());
    let version = member_of(tree, "version"@);
    assert(version == JsonTree::Object(map![
        "name"@ => JsonTree::Text(status.version_name),
        "protocol"@ => JsonTree::Int(status.protocol_version),
    ]));
    assert(member_of(version, "name"@) == JsonTree::Text(status.version_name));
    assert(member_of(version, "protocol"@) == JsonTree::Int(status.protocol_version));
}

/// Writes the packet that ends a login and tells the player why.
pub fn encode_login_disconnect(reason: &str) -> (frame: Vec<u8>)
    ensures
        frame@ == json_packet_bytes(json_text(disconnect_tree(reason@))),
        json_document(encode_utf8(json_text(disconnect_tree(reason@)))) == Some(
            disconnect_tree(reason@),
        ),
{
    let mut object = empty_object();
    set_member(&mut object, "text", text_value(reason));
    proof {
        reveal_with_fuel(plain_within, 2);
        assert(plain_within(json_tree(object), 127));
    }
    let json: String = render(&object);
    encode_json_packet(json.as_str())
}

/// Writes the packet that keeps a waiting client from giving up.
pub fn encode_login_plugin_request(message_id: i32, channel: &str) -> (frame: Vec<u8>)
    ensures
        frame@ == packet_bytes(4, varint_bytes(message_id as int) + string_bytes(channel@)),
{
    let mut payload: Vec<u8> = encode_varint(message_id);
    payload.extend_from_slice(encode_string(channel).as_slice());
    encode_packet(0x04, payload.as_slice())
}

/// The server list entry names the version, the protocol number, the player limit, how many players
/// are online, no sample of them, and the message of the day, each as it was given; it holds nothing
/// else.
pub proof fn law_status_entry(motd: Seq<char>, status: StatusView, online: int)
    ensures
        ({
            let entry = status_tree(motd, status, online);
            let version = member_of(entry, "version"@);
            let players = member_of(entry, "players"@);
            let description = member_of(entry, "description"@);
            &&& member_of(version, "name"@) == JsonTree::Text(status.version_name)
            &&& member_of(version, "protocol"@) == JsonTree::Int(status.protocol_version)
            &&& member_of(players, "max"@) == JsonTree::Int(status.max_players)
            &&& member_of(players, "online"@) == JsonTree::Int(online)
            &&& member_of(players, "sample"@) == JsonTree::List(Seq::empty())
            &&& member_of(description, "text"@) == JsonTree::Text(motd)
            &&& entry is Object && version is Object && players is Object && description is Object
            &&& entry->Object_0.dom() == set!["version"@, "players"@, "description"@]
            &&& version->Object_0.dom() == set!["name"@, "protocol"@]
            &&& players->Object_0.dom() == set!["max"@, "online"@, "sample"@]
            &&& description->Object_0.dom() == set!["text"@]
        }),
{
    reveal_strlit("version");
    reveal_strlit("players");
    reveal_strlit("description");
    reveal_strlit("name");
    reveal_strlit("protocol");
    reveal_strlit("max");
    reveal_strlit("online");
    reveal_strlit("sample");
    assert("version"@[0] != "players"@[0]);
    assert("version"@.len() != "description"@.len());
    assert("players"@.len() != "description"@.len());
    assert("name"@.len() != "protocol"@.len());
    assert("max"@.len() != "online"@.len());
    assert("max"@.len() != "sample"@.len());
    assert("online"@[0] != "sample"@[0]);
    let entry = status_tree(motd, status, online);
    let version = member_of(entry, "version"@);
    let players = member_of(entry, "players"@);
    let description = member_of(entry, "description"@);
    assert(entry->Object_0.dom() =~= set!["version"@, "players"@, "description"@]);
    assert(version->Object_0.dom() =~= set!["name"@, "protocol"@]);
    assert(players->Object_0.dom() =~= set!["max"@, "online"@, "sample"@]);
    assert(description->Object_0.dom() =~= set!["text"@]);
}

/// The reason of a disconnect is the text that was given, and nothing else.
pub proof fn law_disconnect_reason(reason: Seq<char>)
    ensures
        member_of(disconnect_tree(reason), "text"@) == JsonTree::Text(reason),
        disconnect_tree(reason) is Object,
        disconnect_tree(reason)->Object_0.dom() == set!["text"@],
{
    assert(disconnect_tree(reason)->Object_0.dom() =~= set!["text"@]);
}

/// A JSON text goes out in a packet of number 0, as one string.
pub proof fn law_json_packet(json: Seq<char>)
    ensures
        json_packet_bytes(json) == packet_bytes(0, string_bytes(json)),
{
}

} // verus!
