use string_telephone::packet::Packet;
use string_telephone::packet::PacketType;
use string_telephone::server::PacketOrCommand;
use string_telephone::server::Server;
use string_telephone::server::screen_server_datagram;
use string_telephone::shared::ConnectionConfig;
use string_telephone::shared::IpAddress;
use string_telephone::shared::SocketAddress;

type Deserializer = fn(&Vec<u8>) -> Option<Vec<u8>>;
type Serializer = fn(&Vec<u8>) -> Vec<u8>;
type TestConfig = ConnectionConfig<Vec<u8>, Deserializer, Serializer>;
type TestServer = Server<Vec<u8>, Deserializer, Serializer>;

fn deserializer(message: &Vec<u8>) -> Option<Vec<u8>> {
    Some(message.clone())
}

fn serializer(packet: &Vec<u8>) -> Vec<u8> {
    packet.clone()
}

fn generate_settings(port: u16, protocol_id: u32) -> (SocketAddress, TestConfig) {
    let my_addr = SocketAddress { ip: IpAddress::V4(127, 0, 0, 1), port };
    let settings = ConnectionConfig::new(
        protocol_id,
        10,
        deserializer as Deserializer,
        serializer as Serializer,
    );
    (my_addr, settings)
}

fn peer(port: u16) -> SocketAddress {
    SocketAddress { ip: IpAddress::V4(10, 0, 0, 1), port }
}

/// Put one datagram through the server reader's screen, the way its reader
/// task would, and deliver whatever survives.
fn deliver(server: &mut TestServer, packet: Packet, src: SocketAddress) {
    let raw = packet.serialize().unwrap();
    let protocol_id = server.config.protocol_id;
    if let Some(p) = screen_server_datagram(&raw, protocol_id) {
        server.receive_packet(p, src);
    }
}

/// Test we can start listening.
#[test]
fn create_server() {
    let socket = 64000;
    let (my_addr, settings) = generate_settings(socket, 121);
    let server = Server::new(my_addr, settings);
    assert!(server.all_connections().is_empty());
}

/// Test we get empty polls when we have no clients.
#[test]
fn empty_poll() {
    let socket = 64001;
    let (my_addr, settings) = generate_settings(socket, 121);
    let mut server = Server::new(my_addr, settings);
    assert!(server.poll(0).is_none());
}

/// Test we reject bad connection attempts.
#[test]
fn bad_client_attempt() {
    let socket = 64002;
    let (my_addr, settings) = generate_settings(socket, 121);
    let mut server = Server::new(my_addr, settings);

    deliver(&mut server, Packet::connect(122, 0), peer(50000));

    assert!(server.poll(0).is_none());
    assert!(server.all_connections().len() == 0);
}

/// Test we can take a single client.
#[test]
fn single_client() {
    let socket = 64003;
    let (my_addr, settings) = generate_settings(socket, 121);
    let mut server = Server::new(my_addr, settings);

    deliver(&mut server, Packet::connect(121, 0), peer(50001));

    match server.poll(0) {
        Some((PacketOrCommand::Command(PacketType::Connect), _)) => {},
        None => panic!("No result found"),
        _ => panic!("Unexpected poll result"),
    }
    assert!(server.all_connections().len() == 1);
}

/// Test we can take multiple clients.
#[test]
fn multiple_clients() {
    let socket = 64004;
    let (my_addr, settings) = generate_settings(socket, 121);
    let mut server = Server::new(my_addr, settings);

    deliver(&mut server, Packet::connect(121, 0), peer(50002));
    deliver(&mut server, Packet::connect(121, 0), peer(50003));

    match server.poll(0) {
        Some((PacketOrCommand::Command(PacketType::Connect), _)) => {},
        None => panic!("No result found"),
        _ => panic!("Unexpected poll result"),
    };
    match server.poll(0) {
        Some((PacketOrCommand::Command(PacketType::Connect), _)) => {},
        None => panic!("No result found"),
        _ => panic!("Unexpected poll result"),
    }
    assert!(server.all_connections().len() == 2);
}

/// Test we can cull old clients: with a zero timeout both peers expire as
/// soon as the clock moves.
#[test]
fn cull() {
    let socket = 64005;
    let (my_addr, mut settings) = generate_settings(socket, 121);
    settings.timeout_period = 0;
    let mut server = Server::new(my_addr, settings);

    deliver(&mut server, Packet::connect(121, 0), peer(50004));
    deliver(&mut server, Packet::connect(121, 0), peer(50005));

    match server.poll(0) {
        Some((PacketOrCommand::Command(PacketType::Connect), _)) => {},
        None => panic!("No result found"),
        _ => panic!("Unexpected poll result"),
    };
    match server.poll(0) {
        Some((PacketOrCommand::Command(PacketType::Connect), _)) => {},
        None => panic!("No result found"),
        _ => panic!("Unexpected poll result"),
    }
    assert!(server.all_connections().len() == 2);
    assert!(server.cull(1).len() == 2);
    assert!(server.all_connections().len() == 0);
}

/// Test we can send to one.
#[test]
fn send_to_one() {
    let socket = 64006;
    let (my_addr, settings) = generate_settings(socket, 121);
    let mut server = Server::new(my_addr, settings);

    deliver(&mut server, Packet::connect(121, 0), peer(50006));
    let source = match server.poll(0) {
        Some((PacketOrCommand::Command(PacketType::Connect), source)) => source,
        None => panic!("No result found"),
        _ => panic!("Unexpected poll result"),
    };
    let (accept_out, accept_dest) = server.take_outgoing().expect("Couldn't send a message");
    assert!(accept_out.packet_type == PacketType::Accept);
    assert!(accept_dest == source);

    let message_out = vec![1, 2];
    assert!(server.send_to(&message_out, &source) == true);

    let (wire, dest) = server.take_outgoing().expect("Couldn't send a message");
    assert!(dest == source);
    let raw = wire.serialize().unwrap();
    let message = Packet::deserialize(&raw).expect("Couldn't deserialize a message");
    assert!(message.packet_type == PacketType::Message);
    assert!(message.packet_content.unwrap() == message_out);
}

/// Test we can't send to folks who aren't connected.
#[test]
fn send_to_disconnected() {
    let socket = 64007;
    let (my_addr, settings) = generate_settings(socket, 121);
    let mut server = Server::new(my_addr, settings);
    assert!(server.send_to(&vec![1], &my_addr) == false);
}

/// Test we can send to multiple folks.
#[test]
fn send_to_many() {
    let socket = 64008;
    let (my_addr, settings) = generate_settings(socket, 121);
    let mut server = Server::new(my_addr, settings);

    deliver(&mut server, Packet::connect(121, 0), peer(50007));
    deliver(&mut server, Packet::connect(121, 0), peer(50008));
    let source = match server.poll(0) {
        Some((PacketOrCommand::Command(PacketType::Connect), source)) => source,
        None => panic!("No result found"),
        _ => panic!("Unexpected poll result"),
    };
    let source2 = match server.poll(0) {
        Some((PacketOrCommand::Command(PacketType::Connect), source)) => source,
        None => panic!("No result found"),
        _ => panic!("Unexpected poll result"),
    };
    // the accept packets sit first in the outbound queue
    server.take_outgoing().expect("Couldn't send a message");
    server.take_outgoing().expect("Couldn't send a message");

    let message_out = vec![1, 2];
    server.send_to_many(&message_out, &vec![source, source2]);

    let (wire1, dest1) = server.take_outgoing().expect("Couldn't send a message");
    let (wire2, dest2) = server.take_outgoing().expect("Couldn't send a message");
    assert!(dest1 == source && dest2 == source2);
    let message1 = Packet::deserialize(&wire1.serialize().unwrap())
        .expect("Couldn't deserialize a message");
    let message2 = Packet::deserialize(&wire2.serialize().unwrap())
        .expect("Couldn't deserialize a message");
    assert!(message1.packet_content.unwrap() == message2.packet_content.unwrap());
}

/// Test we can send to everyone connected.
#[test]
fn send_to_all() {
    let socket = 64009;
    let (my_addr, settings) = generate_settings(socket, 121);
    let mut server = Server::new(my_addr, settings);

    deliver(&mut server, Packet::connect(121, 0), peer(50009));
    deliver(&mut server, Packet::connect(121, 0), peer(50010));
    match server.poll(0) {
        Some((PacketOrCommand::Command(PacketType::Connect), _)) => {},
        None => panic!("No result found"),
        _ => panic!("Unexpected poll result"),
    };
    match server.poll(0) {
        Some((PacketOrCommand::Command(PacketType::Connect), _)) => {},
        None => panic!("No result found"),
        _ => panic!("Unexpected poll result"),
    };
    server.take_outgoing().expect("Couldn't send a message");
    server.take_outgoing().expect("Couldn't send a message");

    let message_out = vec![1, 2];
    server.send_to_all(&message_out);

    let (wire1, dest1) = server.take_outgoing().expect("Couldn't send a message");
    let (wire2, dest2) = server.take_outgoing().expect("Couldn't send a message");
    assert!(dest1 == peer(50009) && dest2 == peer(50010));
    let message1 = Packet::deserialize(&wire1.serialize().unwrap())
        .expect("Couldn't deserialize a message");
    let message2 = Packet::deserialize(&wire2.serialize().unwrap())
        .expect("Couldn't deserialize a message");
    assert!(message1.packet_content.unwrap() == message2.packet_content.unwrap());
}

/// Test we can receive messages.
#[test]
fn receive() {
    let socket = 64010;
    let (my_addr, settings) = generate_settings(socket, 121);
    let mut server = Server::new(my_addr, settings);

    deliver(&mut server, Packet::connect(121, 0), peer(50011));
    match server.poll(0) {
        Some((PacketOrCommand::Command(PacketType::Connect), _)) => {},
        None => panic!("No result found"),
        _ => panic!("Unexpected poll result"),
    };
    deliver(&mut server, Packet::message(121, 1, vec![1, 2, 3]), peer(50011));
    let data = match server.poll(0) {
        Some((PacketOrCommand::UserPacket(data), _)) => data,
        None => panic!("No result found"),
        _ => panic!("Unexpected poll result"),
    };
    assert!(data == vec![1, 2, 3]);
}

/// Test we can handle client disconnects.
#[test]
fn test_server_client_disconnect() {
    let socket = 64011;
    let (my_addr, settings) = generate_settings(socket, 121);
    let mut server = Server::new(my_addr, settings);

    deliver(&mut server, Packet::connect(121, 0), peer(50012));
    match server.poll(0) {
        Some((PacketOrCommand::Command(PacketType::Connect), source)) => source,
        None => panic!("No result found"),
        _ => panic!("Unexpected poll result"),
    };
    assert!(server.all_connections().len() == 1);
    deliver(&mut server, Packet::disconnect(121, 0), peer(50012));
    match server.poll(0) {
        Some((PacketOrCommand::Command(PacketType::Disconnect), _)) => {},
        None => panic!("No result found"),
        _ => panic!("Unexpected poll result"),
    };
    assert!(server.all_connections().len() == 0);
}

/// A single client shouldn't be able to connect to us multiple times.
#[test]
fn client_tries_multiple_connect() {
    let socket = 64012;
    let (my_addr, settings) = generate_settings(socket, 121);
    let mut server = Server::new(my_addr, settings);

    deliver(&mut server, Packet::connect(121, 0), peer(50013));
    match server.poll(0) {
        Some((PacketOrCommand::Command(PacketType::Connect), source)) => source,
        None => panic!("No result found"),
        _ => panic!("Unexpected poll result"),
    };
    assert!(server.all_connections().len() == 1);
    deliver(&mut server, Packet::connect(121, 0), peer(50013));
    match server.poll(0) {
        None => {},
        _ => panic!("Unexpected poll result"),
    };
    assert!(server.all_connections().len() == 1);
    // the duplicate connect got no second accept either
    let mut accepts = 0;
    while let Some((wire, _)) = server.take_outgoing() {
        if wire.packet_type == PacketType::Accept {
            accepts += 1;
        }
    }
    assert_eq!(accepts, 1);
}

/// Test we ignore out-of-sequence messages.
#[test]
fn out_of_sequence_packets() {
    let socket = 64013;
    let (my_addr, settings) = generate_settings(socket, 121);
    let mut server = Server::new(my_addr, settings);

    deliver(&mut server, Packet::connect(121, 0), peer(50014));
    match server.poll(0) {
        Some((PacketOrCommand::Command(PacketType::Connect), _)) => {},
        None => panic!("No result found"),
        _ => panic!("Unexpected poll result"),
    };
    deliver(&mut server, Packet::message(121, 1, vec![1]), peer(50014));
    deliver(&mut server, Packet::message(121, 0, vec![2]), peer(50014));
    deliver(&mut server, Packet::message(121, 2, vec![3]), peer(50014));

    let mut packets: Vec<Vec<u8>> = vec![];
    loop {
        match server.poll(0) {
            Some((PacketOrCommand::UserPacket(data), _)) => packets.push(data),
            None => break,
            _ => panic!("Unexpected poll result"),
        };
    }
    assert!(packets.len() == 2);
    assert!(packets[0] == vec![1]);
    assert!(packets[1] == vec![3]);
}

/// A cull shrinks the connection list by exactly the addresses it returns,
/// and leaves the surviving peers in place.
#[test]
fn cull_mixed_deadlines() {
    let socket = 64014;
    let (my_addr, settings) = generate_settings(socket, 121);
    let mut server = Server::new(my_addr, settings);

    // peers connect at different times, so their deadlines differ
    deliver(&mut server, Packet::connect(121, 0), peer(50015));
    let early = match server.poll(0) {
        Some((PacketOrCommand::Command(PacketType::Connect), source)) => source,
        _ => panic!("Unexpected poll result"),
    };
    deliver(&mut server, Packet::connect(121, 0), peer(50016));
    let late = match server.poll(100) {
        Some((PacketOrCommand::Command(PacketType::Connect), source)) => source,
        _ => panic!("Unexpected poll result"),
    };

    let before = server.all_connections().len();
    let evicted = server.cull(50);
    let after = server.all_connections().len();
    assert_eq!(before - evicted.len(), after);
    assert_eq!(evicted, vec![early]);
    assert_eq!(server.all_connections(), vec![late]);
}
