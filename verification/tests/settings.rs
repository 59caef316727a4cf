use echo_sfu::codecs::{media_codecs, AudioCodec, CodecSpec, Feedback, VideoCodec};
use echo_sfu::config::{listen_config, worker_count, worker_for_new_room, TransportProtocol};
use echo_sfu::pipe::{pipe_connect_target, PipeTuple};
use echo_sfu::ids::resolve_peer_id;

#[test]
fn codecs_are_opus_and_vp8() {
    let c = media_codecs();
    assert_eq!(c.len(), 2);
    match &c[0] {
        CodecSpec::Audio { mime_type, preferred_payload_type, clock_rate, channels, parameters, rtcp_feedback } => {
            assert_eq!(*mime_type, AudioCodec::Opus);
            assert_eq!(*preferred_payload_type, None);
            assert_eq!(*clock_rate, 48000);
            assert_eq!(*channels, 2);
            assert_eq!(parameters.len(), 1);
            assert_eq!(parameters[0].name, "useinbandfec");
            assert_eq!(parameters[0].value, 1);
            assert_eq!(rtcp_feedback, &vec![Feedback::TransportCc]);
        }
        _ => panic!("first codec is not audio"),
    }
    match &c[1] {
        CodecSpec::Video { mime_type, preferred_payload_type, clock_rate, parameters, rtcp_feedback } => {
            assert_eq!(*mime_type, VideoCodec::Vp8);
            assert_eq!(*preferred_payload_type, None);
            assert_eq!(*clock_rate, 90000);
            assert!(parameters.is_empty());
            assert_eq!(
                rtcp_feedback,
                &vec![Feedback::Nack, Feedback::NackPli, Feedback::CcmFir, Feedback::GoogRemb, Feedback::TransportCc]
            );
        }
        _ => panic!("second codec is not video"),
    }
}

#[test]
fn listen_config_values() {
    let c = listen_config([127, 0, 0, 1], "22.33.12.192".to_string());
    assert_eq!(c.protocol, TransportProtocol::Tcp);
    assert_eq!(c.ip, [127, 0, 0, 1]);
    assert_eq!(c.announced_address.as_deref(), Some("22.33.12.192"));
    assert!(!c.expose_internal_ip);
    assert_eq!(c.port, None);
    assert_eq!(c.port_range, Some((5170, 5172)));
}

#[test]
fn configured_worker_count_or_one_per_cpu() {
    assert_eq!(worker_count(10, 4), 10);
    assert_eq!(worker_count(1, 64), 1);
    assert_eq!(worker_count(0, 4), 4);
    assert_eq!(worker_count(0, 0), 0);
}

#[test]
fn new_rooms_go_to_the_first_worker() {
    assert_eq!(worker_for_new_room(10), Some(0));
    assert_eq!(worker_for_new_room(1), Some(0));
    assert_eq!(worker_for_new_room(0), None);
}

#[test]
fn pipe_connects_where_the_other_pipe_listens() {
    let (address, port) = pipe_connect_target(PipeTuple {
        local_address: "10.0.0.7".to_string(),
        local_port: 5171,
    });
    assert_eq!(address, "10.0.0.7");
    assert_eq!(port, 5171);
}

#[test]
fn requested_peer_id_is_kept() {
    assert_eq!(resolve_peer_id(Some("alice".to_string())), "alice");
    assert_eq!(resolve_peer_id(Some(String::new())), "");
}

#[test]
fn missing_peer_id_becomes_a_v4_uuid() {
    let id = resolve_peer_id(None);
    let b: Vec<char> = id.chars().collect();
    assert_eq!(b.len(), 36);
    for (i, c) in b.iter().enumerate() {
        if i == 8 || i == 13 || i == 18 || i == 23 {
            assert_eq!(*c, '-');
        } else {
            assert!(c.is_ascii_digit() || ('a'..='f').contains(c));
        }
    }
    assert_eq!(b[14], '4');
    assert!("89ab".contains(b[19]));
    assert_ne!(resolve_peer_id(None), id);
}
