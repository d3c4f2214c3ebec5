use nsq_client::error::Error;
use nsq_client::identify::{AuthResponse, IdentifyResponse};
use nsq_client::lookup::{
    ChannelsResponse, InfoResponse, LookupResponse, Node, NodesResponse, Producer, TopicsResponse,
};

#[test]
fn lookup_stub_yields_typed_record() {
    let body = "{\"channels\":[\"c1\"],\"producers\":[{\"broadcast_address\":\"h\",\
                \"hostname\":\"h\",\"remote_address\":\"h:1\",\"tcp_port\":4150,\
                \"http_port\":4151,\"version\":\"1.2.1\"}]}";
    let r = LookupResponse::parse(body).unwrap();
    assert_eq!(r.channels, vec!["c1".to_string()]);
    assert_eq!(
        r.producers,
        vec![Producer {
            broadcast_address: "h".to_string(),
            hostname: "h".to_string(),
            remote_address: "h:1".to_string(),
            tcp_port: 4150,
            http_port: 4151,
            version: "1.2.1".to_string(),
        }]
    );
}

#[test]
fn lookup_missing_field_is_a_json_error() {
    let body = "{\"channels\":[\"c1\"]}";
    assert!(matches!(LookupResponse::parse(body), Err(Error::JsonError(_))));
    assert!(matches!(LookupResponse::parse("not json"), Err(Error::JsonError(_))));
}

#[test]
fn topics_and_channels_parse() {
    let t = TopicsResponse::parse("{\"topics\":[\"a\",\"b\"]}").unwrap();
    assert_eq!(t.topics, vec!["a".to_string(), "b".to_string()]);
    let c = ChannelsResponse::parse("{\"channels\":[]}").unwrap();
    assert!(c.channels.is_empty());
}

#[test]
fn nodes_parse_with_tombstones() {
    let body = "{\"producers\":[{\"broadcast_address\":\"h\",\"hostname\":\"h\",\
                \"remote_address\":\"h:1\",\"tcp_port\":4150,\"http_port\":4151,\
                \"version\":\"1.2.1\",\"tombstones\":[false,true],\"topics\":[\"t1\",\"t2\"]}]}";
    let n = NodesResponse::parse(body).unwrap();
    assert_eq!(n.producers.len(), 1);
    let node = &n.producers[0];
    assert_eq!(node.tombstones, vec![false, true]);
    assert_eq!(node.topics, vec!["t1".to_string(), "t2".to_string()]);
    assert_eq!(node.http_port, 4151);
}

#[test]
fn info_parse() {
    let i = InfoResponse::parse("{\"version\":\"1.2.1\"}").unwrap();
    assert_eq!(i.version, "1.2.1");
}

#[test]
fn tombstone_node_parameter() {
    let node = Node {
        broadcast_address: "h".to_string(),
        hostname: "h".to_string(),
        remote_address: "h:1".to_string(),
        tcp_port: 4150,
        http_port: 4151,
        version: "1.2.1".to_string(),
        tombstones: vec![],
        topics: vec![],
    };
    assert_eq!(node.tombstone_param(), "h:4151");
}

#[test]
fn port_out_of_range_is_a_json_error() {
    let body = "{\"channels\":[],\"producers\":[{\"broadcast_address\":\"h\",\
                \"hostname\":\"h\",\"remote_address\":\"h:1\",\"tcp_port\":70000,\
                \"http_port\":4151,\"version\":\"1.2.1\"}]}";
    assert!(matches!(LookupResponse::parse(body), Err(Error::JsonError(_))));
}

#[test]
fn identify_response_parses_and_rejects() {
    let body = "{\"max_rdy_count\":2500,\"auth_required\":false,\"deflate\":true,\
                \"deflate_level\":6,\"max_deflate_level\":6,\"max_msg_timeout\":900000,\
                \"msg_timeout\":60000,\"output_buffer_size\":16384,\
                \"output_buffer_timeout\":250,\"sample_rate\":0,\"snappy\":false,\
                \"tls_v1\":false,\"version\":\"1.2.1\"}";
    let ir = IdentifyResponse::parse(body).unwrap();
    assert!(ir.deflate && !ir.snappy && !ir.tls_v1 && !ir.auth_required);
    assert_eq!(ir.deflate_level, 6);
    assert_eq!(ir.max_rdy_count, 2500);
    assert_eq!(ir.version, "1.2.1");

    let missing = "{\"max_rdy_count\":2500}";
    assert!(matches!(IdentifyResponse::parse(missing), Err(Error::JsonError(_))));
}

#[test]
fn identify_rejects_non_integer_numbers() {
    let body = "{\"max_rdy_count\":2500.5,\"auth_required\":false,\"deflate\":false,\
                \"deflate_level\":0,\"max_deflate_level\":6,\"max_msg_timeout\":900000,\
                \"msg_timeout\":60000,\"output_buffer_size\":16384,\
                \"output_buffer_timeout\":250,\"sample_rate\":0,\"snappy\":false,\
                \"tls_v1\":false,\"version\":\"1.2.1\"}";
    assert!(matches!(IdentifyResponse::parse(body), Err(Error::JsonError(_))));
}

#[test]
fn auth_reply_parses_with_and_without_url() {
    let with_url = "{\"identify\":\"ok\",\"identify_url\":\"http://a\",\
                    \"permission_count\":2}";
    let a = AuthResponse::parse(with_url).unwrap();
    assert_eq!(a.identify, "ok");
    assert_eq!(a.identify_url, Some("http://a".to_string()));
    assert_eq!(a.permission_count, 2);

    let null_url = "{\"identify\":\"ok\",\"identify_url\":null,\"permission_count\":2}";
    let a = AuthResponse::parse(null_url).unwrap();
    assert_eq!(a.identify_url, None);

    let bad_url = "{\"identify\":\"ok\",\"identify_url\":7,\"permission_count\":2}";
    assert!(matches!(AuthResponse::parse(bad_url), Err(Error::JsonError(_))));
}
