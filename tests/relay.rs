use llm_relay::base64::{decode_base64, encode_base64};
use llm_relay::error::RelayError;
use llm_relay::message::{ConversationMessage, GenerationConfig, Role};
use llm_relay::stream::{
    chunk_role_name, relay, step, to_fragment, Chunk, ChunkMessage, ChunkRole, Flow, StreamItem,
};
use llm_relay::translate::{translate, RequestRole};
use llm_relay::usage::{format_cpu, format_mem, snapshot, snapshots, UsageReading};

fn msg(role: &str, content: &str, image: Option<&str>) -> ConversationMessage {
    ConversationMessage {
        role: Role::parse(role),
        content: content.to_string(),
        image: image.map(|s| s.to_string()),
    }
}

fn config() -> GenerationConfig {
    GenerationConfig {
        model_id: "llama3".to_string(),
        temperature_bits: 0.7f32.to_bits(),
        top_p_bits: 0.9f32.to_bits(),
        top_k: 40,
    }
}

fn chunk(content: Option<&str>, done: bool) -> Chunk {
    Chunk {
        model: "llama3".to_string(),
        created_at: "2024-01-01T00:00:00Z".to_string(),
        message: content.map(|c| ChunkMessage { role: ChunkRole::Assistant, content: c.to_string() }),
        done,
    }
}

#[test]
fn role_parse_and_name() {
    assert!(matches!(Role::parse("user"), Role::User));
    assert!(matches!(Role::parse("assistant"), Role::Assistant));
    let other = Role::parse("system");
    assert!(matches!(&other, Role::Unrecognized(s) if s == "system"));
    assert_eq!(other.name(), "system");
    assert_eq!(Role::User.name(), "user");
    assert!(!other.is_recognized());
    assert_eq!(chunk_role_name(ChunkRole::Tool), "tool");
}

#[test]
fn decode_known_texts() {
    assert_eq!(decode_base64(b"aGk=").unwrap(), b"hi".to_vec());
    assert_eq!(decode_base64(b"aGVsbG8=").unwrap(), b"hello".to_vec());
    assert_eq!(decode_base64(b"Zm9vYmFy").unwrap(), b"foobar".to_vec());
    assert_eq!(decode_base64(b"Zg==").unwrap(), b"f".to_vec());
    assert_eq!(decode_base64(b"").unwrap(), Vec::<u8>::new());
    assert_eq!(decode_base64(b"+/+/").unwrap(), vec![0xfb, 0xff, 0xbf]);
}

#[test]
fn decode_rejects_malformed_texts() {
    assert!(decode_base64(b"abc").is_none());
    assert!(decode_base64(b"a===").is_none());
    assert!(decode_base64(b"!!!!").is_none());
    assert!(decode_base64(b"Zg==Zg==").is_none());
    assert!(decode_base64(b"Z=g=").is_none());
}

#[test]
fn encode_known_bytes() {
    assert_eq!(encode_base64(b"hi"), b"aGk=".to_vec());
    assert_eq!(encode_base64(b"f"), b"Zg==".to_vec());
    assert_eq!(encode_base64(b"foobar"), b"Zm9vYmFy".to_vec());
    assert_eq!(encode_base64(b""), Vec::<u8>::new());
    let bytes: Vec<u8> = (0u8..=255).collect();
    assert_eq!(decode_base64(&encode_base64(&bytes)).unwrap(), bytes);
}

#[test]
fn translate_keeps_order_and_drops_unrecognized_roles() {
    let history = vec![
        msg("user", "one", None),
        msg("system", "ignored", None),
        msg("assistant", "two", None),
        msg("user", "three", None),
    ];
    let req = translate(&history, &config()).ok().unwrap();
    assert_eq!(req.model_id, "llama3");
    let got: Vec<(RequestRole, String)> =
        req.messages.iter().map(|m| (m.role, m.content.clone())).collect();
    assert_eq!(
        got,
        vec![
            (RequestRole::User, "one".to_string()),
            (RequestRole::Assistant, "two".to_string()),
            (RequestRole::User, "three".to_string()),
        ]
    );
    assert_eq!(req.options.top_k, 40);
    assert_eq!(f32::from_bits(req.options.temperature_bits), 0.7f32);
    assert_eq!(f32::from_bits(req.options.top_p_bits), 0.9f32);
}

#[test]
fn translate_same_for_histories_differing_in_unrecognized_roles() {
    let a = vec![msg("user", "q", None), msg("assistant", "a", None)];
    let b = vec![
        msg("tool", "x", Some("not base64!")),
        msg("user", "q", None),
        msg("whatever", "y", None),
        msg("assistant", "a", None),
    ];
    let ra = translate(&a, &config()).ok().unwrap();
    let rb = translate(&b, &config()).ok().unwrap();
    let view = |r: &llm_relay::translate::ChatRequest| -> Vec<(RequestRole, String, Option<Vec<u8>>)> {
        r.messages.iter().map(|m| (m.role, m.content.clone(), m.image.clone())).collect()
    };
    assert_eq!(view(&ra), view(&rb));
}

#[test]
fn translate_decodes_images() {
    let history = vec![msg("user", "look", Some("aGVsbG8=")), msg("assistant", "ok", None)];
    let req = translate(&history, &config()).ok().unwrap();
    assert_eq!(req.messages[0].image, Some(b"hello".to_vec()));
    assert_eq!(req.messages[1].image, None);
}

#[test]
fn translate_fails_on_malformed_image() {
    let history = vec![
        msg("user", "fine", None),
        msg("bot", "skipped", Some("%%%")),
        msg("assistant", "bad", Some("aGk")),
        msg("user", "also bad", Some("@@@@")),
    ];
    match translate(&history, &config()) {
        Err(RelayError::InvalidImage(i)) => assert_eq!(i, 2),
        _ => panic!("expected an image error"),
    }
    assert_eq!(RelayError::InvalidImage(2).message(), "invalid base64 image in message 2");
}

#[test]
fn relay_emits_every_chunk_up_to_done() {
    let items = vec![
        StreamItem::Chunk(chunk(Some("Hel"), false)),
        StreamItem::Chunk(chunk(Some("lo"), false)),
        StreamItem::Chunk(chunk(Some("!"), true)),
        StreamItem::Chunk(chunk(Some("never read"), false)),
        StreamItem::Malformed,
    ];
    let out = relay(&Ok(items));
    assert!(out.result.is_ok());
    assert_eq!(out.consumed, 3);
    let texts: Vec<String> = out.fragments.iter().map(|f| f.message.content.clone()).collect();
    assert_eq!(texts, vec!["Hel", "lo", "!"]);
    let dones: Vec<bool> = out.fragments.iter().map(|f| f.done).collect();
    assert_eq!(dones, vec![false, false, true]);
    assert_eq!(out.fragments[0].model, "llama3");
    assert_eq!(out.fragments[0].created_at, "2024-01-01T00:00:00Z");
    assert!(matches!(out.fragments[0].message.role, Role::Assistant));
}

#[test]
fn relay_open_error_emits_nothing() {
    let out = relay(&Err("connection refused".to_string()));
    assert_eq!(out.fragments.len(), 0);
    assert_eq!(out.consumed, 0);
    match out.result {
        Err(RelayError::BackendUnavailable(m)) => assert_eq!(m, "connection refused"),
        _ => panic!("expected BackendUnavailable"),
    }
}

#[test]
fn relay_skips_chunk_without_message() {
    let items = vec![
        StreamItem::Chunk(chunk(Some("a"), false)),
        StreamItem::Chunk(chunk(None, false)),
        StreamItem::Chunk(chunk(Some("b"), true)),
    ];
    let out = relay(&Ok(items));
    assert!(out.result.is_ok());
    assert_eq!(out.consumed, 3);
    let texts: Vec<String> = out.fragments.iter().map(|f| f.message.content.clone()).collect();
    assert_eq!(texts, vec!["a", "b"]);
}

#[test]
fn relay_stops_on_malformed_chunk() {
    let items = vec![
        StreamItem::Chunk(chunk(Some("a"), false)),
        StreamItem::Malformed,
        StreamItem::Chunk(chunk(Some("b"), true)),
    ];
    let out = relay(&Ok(items));
    assert_eq!(out.consumed, 2);
    assert_eq!(out.fragments.len(), 1);
    assert!(matches!(out.result, Err(RelayError::StreamDecodeError)));
    assert_eq!(RelayError::StreamDecodeError.message(), "stream.next error");
}

#[test]
fn relay_ends_with_stream_end() {
    let items = vec![StreamItem::Chunk(chunk(Some("a"), false))];
    let out = relay(&Ok(items));
    assert!(out.result.is_ok());
    assert_eq!(out.consumed, 1);
    assert_eq!(out.fragments.len(), 1);
    let empty = relay(&Ok(Vec::new()));
    assert!(empty.result.is_ok());
    assert_eq!(empty.fragments.len(), 0);
}

#[test]
fn step_decisions() {
    let s = step(&StreamItem::Chunk(chunk(None, true)));
    assert!(s.fragment.is_none());
    assert!(matches!(s.flow, Flow::Finish));
    let s = step(&StreamItem::Chunk(chunk(Some("x"), false)));
    assert!(s.fragment.is_some());
    assert!(matches!(s.flow, Flow::Continue));
    let s = step(&StreamItem::Malformed);
    assert!(matches!(s.flow, Flow::Abort(RelayError::StreamDecodeError)));
}

#[test]
fn assistant_message_round_trip() {
    let history = vec![msg("assistant", "hi", None)];
    let req = translate(&history, &config()).ok().unwrap();
    let echoed = Chunk {
        model: "llama3".to_string(),
        created_at: "t".to_string(),
        message: Some(ChunkMessage {
            role: ChunkRole::Assistant,
            content: req.messages[0].content.clone(),
        }),
        done: true,
    };
    let f = to_fragment(&echoed).unwrap();
    assert_eq!(f.message.content, "hi");
    assert!(f.message.image.is_none());
    assert!(matches!(f.message.role, Role::Assistant));
}

#[test]
fn system_role_chunk_keeps_its_name() {
    let c = Chunk {
        model: "m".to_string(),
        created_at: "t".to_string(),
        message: Some(ChunkMessage { role: ChunkRole::System, content: "s".to_string() }),
        done: false,
    };
    let f = to_fragment(&c).unwrap();
    assert_eq!(f.message.role.name(), "system");
}

#[test]
fn cpu_formatting() {
    assert_eq!(format_cpu(1234), "12.34%");
    assert_eq!(format_cpu(5), "0.05%");
    assert_eq!(format_cpu(10000), "100.00%");
    assert_eq!(format_cpu(0), "0.00%");
}

#[test]
fn memory_formatting() {
    assert_eq!(format_mem(0), "0.0GB");
    assert_eq!(format_mem(7_838_315_315), "7.3GB");
    assert_eq!(format_mem(1_073_741_824), "1.0GB");
    assert_eq!(format_mem(1_610_612_736), "1.5GB");
    assert_eq!(format_mem(u64::MAX), "17179869184.0GB");
}

#[test]
fn sampler_emits_one_snapshot_per_tick() {
    let readings: Vec<UsageReading> = (0..5u64)
        .map(|k| UsageReading { cpu_hundredths: 1000 + k, used_memory_bytes: k * 1_073_741_824 })
        .collect();
    let snaps = snapshots(&readings);
    assert_eq!(snaps.len(), 5);
    for (k, s) in snaps.iter().enumerate() {
        assert_eq!(s.cpu, format!("10.0{}%", k));
        assert_eq!(s.mem, format!("{}.0GB", k));
    }
    let one = snapshot(&UsageReading { cpu_hundredths: 4321, used_memory_bytes: 0 });
    assert_eq!(one.cpu, "43.21%");
    assert_eq!(one.mem, "0.0GB");
}
