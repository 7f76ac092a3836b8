use metainfo::convert::{HttpConverter, RpcConverter};

#[test]
fn add_rpc_prefix() {
    assert_eq!(
        RpcConverter.add_persistent_prefix("TEST_KEY"),
        "RPC_PERSIST_TEST_KEY",
    );
    assert_eq!(
        RpcConverter.add_transient_prefix("TEST_KEY"),
        "RPC_TRANSIT_TEST_KEY",
    );
    assert_eq!(
        RpcConverter.add_backward_prefix("TEST_KEY"),
        "RPC_BACKWARD_TEST_KEY",
    );
}

#[test]
fn remove_rpc_prefix() {
    assert_eq!(
        RpcConverter
            .remove_persistent_prefix("RPC_PERSIST_TEST_KEY")
            .as_deref(),
        Some("TEST_KEY"),
    );
    assert_eq!(
        RpcConverter
            .remove_transient_prefix("RPC_TRANSIT_TEST_KEY")
            .as_deref(),
        Some("TEST_KEY"),
    );
    assert_eq!(
        RpcConverter
            .remove_backward_prefix("RPC_BACKWARD_TEST_KEY")
            .as_deref(),
        Some("TEST_KEY"),
    );
    assert_eq!(
        RpcConverter
            .remove_persistent_prefix("RPC_PERSIST-TEST_KEY")
            .as_deref(),
        None,
    );
    assert_eq!(
        RpcConverter
            .remove_transient_prefix("RPC-TRANSIT_TEST_KEY")
            .as_deref(),
        None,
    );
    assert_eq!(
        RpcConverter
            .remove_backward_prefix("RPC_BBBBDDDD_TEST_KEY")
            .as_deref(),
        None,
    );
}

#[test]
fn rpc_prefix_bidirect() {
    // remove after add
    assert_eq!(
        RpcConverter
            .remove_persistent_prefix(&RpcConverter.add_persistent_prefix("TEST_KEY"))
            .as_deref(),
        Some("TEST_KEY"),
    );
    assert_eq!(
        RpcConverter
            .remove_transient_prefix(&RpcConverter.add_transient_prefix("TEST_KEY"))
            .as_deref(),
        Some("TEST_KEY"),
    );
    assert_eq!(
        RpcConverter
            .remove_backward_prefix(&RpcConverter.add_backward_prefix("TEST_KEY"))
            .as_deref(),
        Some("TEST_KEY"),
    );

    // add after remove
    assert_eq!(
        RpcConverter.add_persistent_prefix(
            &RpcConverter
                .remove_persistent_prefix("RPC_PERSIST_TEST_KEY")
                .unwrap()
        ),
        "RPC_PERSIST_TEST_KEY",
    );
    assert_eq!(
        RpcConverter.add_transient_prefix(
            &RpcConverter
                .remove_transient_prefix("RPC_TRANSIT_TEST_KEY")
                .unwrap()
        ),
        "RPC_TRANSIT_TEST_KEY",
    );
    assert_eq!(
        RpcConverter.add_backward_prefix(
            &RpcConverter
                .remove_backward_prefix("RPC_BACKWARD_TEST_KEY")
                .unwrap()
        ),
        "RPC_BACKWARD_TEST_KEY",
    );
}

#[test]
fn http_format_convert_test() {
    fn check(rpc_style: &str, http_style: &str) {
        assert_eq!(HttpConverter.to_http_format_string(rpc_style), http_style);
    }
    check("RPC_PERSIST_TEST_KEY", "rpc-persist-test-key");
    check("RPC_TRANSIT_TEST_KEY", "rpc-transit-test-key");
    check("RPC_BACKWARD_TEST_KEY", "rpc-backward-test-key");
    check("TEST_KEY", "test-key");
}

#[test]
fn rpc_format_convert_test() {
    fn check(http_style: &str, rpc_style: &str) {
        assert_eq!(HttpConverter.to_rpc_format_string(http_style), rpc_style);
    }
    check("rpc-persist-test-key", "RPC_PERSIST_TEST_KEY");
    check("rpc-transit-test-key", "RPC_TRANSIT_TEST_KEY");
    check("rpc-backward-test-key", "RPC_BACKWARD_TEST_KEY");
    check("test-key", "TEST_KEY");
}

#[test]
fn format_bidirect_convert() {
    fn check_rpc(rpc_style: &str) {
        assert_eq!(
            HttpConverter.to_rpc_format_string(&HttpConverter.to_http_format_string(rpc_style)),
            rpc_style,
        );
    }
    fn check_http(http_style: &str) {
        assert_eq!(
            HttpConverter.to_http_format_string(&HttpConverter.to_rpc_format_string(http_style)),
            http_style,
        );
    }
    check_rpc("RPC_PERSIST_TEST_KEY");
    check_rpc("RPC_TRANSIT_TEST_KEY");
    check_rpc("RPC_BACKWARD_TEST_KEY");
    check_rpc("TEST_KEY");
    check_http("rpc-persist-test-key");
    check_http("rpc-transit-test-key");
    check_http("rpc-backward-test-key");
    check_http("test-key");
}

#[test]
fn add_http_prefix() {
    assert_eq!(
        HttpConverter.add_persistent_prefix("TEST_KEY"),
        "rpc-persist-test-key",
    );
    assert_eq!(
        HttpConverter.add_transient_prefix("TEST_KEY"),
        "rpc-transit-test-key",
    );
    assert_eq!(
        HttpConverter.add_backward_prefix("TEST_KEY"),
        "rpc-backward-test-key",
    );
}

#[test]
fn remove_http_prefix() {
    assert_eq!(
        HttpConverter
            .remove_persistent_prefix("rpc-persist-test-key")
            .as_deref(),
        Some("TEST_KEY"),
    );
    assert_eq!(
        HttpConverter
            .remove_transient_prefix("rpc-transit-test-key")
            .as_deref(),
        Some("TEST_KEY"),
    );
    assert_eq!(
        HttpConverter
            .remove_backward_prefix("rpc-backward-test-key")
            .as_deref(),
        Some("TEST_KEY"),
    );
    assert_eq!(
        HttpConverter
            .remove_persistent_prefix("rpc-persist_test-key")
            .as_deref(),
        None,
    );
    assert_eq!(
        HttpConverter
            .remove_transient_prefix("rpc_transit-test-key")
            .as_deref(),
        None,
    );
    assert_eq!(
        HttpConverter
            .remove_backward_prefix("rpc-bbbbdddd-test-key")
            .as_deref(),
        None,
    );
}

#[test]
fn http_prefix_bidirect() {
    // remove after add
    assert_eq!(
        HttpConverter
            .remove_persistent_prefix(&HttpConverter.add_persistent_prefix("TEST_KEY"))
            .as_deref(),
        Some("TEST_KEY"),
    );
    assert_eq!(
        HttpConverter
            .remove_transient_prefix(&HttpConverter.add_transient_prefix("TEST_KEY"))
            .as_deref(),
        Some("TEST_KEY"),
    );
    assert_eq!(
        HttpConverter
            .remove_backward_prefix(&HttpConverter.add_backward_prefix("TEST_KEY"))
            .as_deref(),
        Some("TEST_KEY"),
    );

    // add after remove
    assert_eq!(
        HttpConverter.add_persistent_prefix(
            &HttpConverter
                .remove_persistent_prefix("rpc-persist-test-key")
                .unwrap()
        ),
        "rpc-persist-test-key",
    );
    assert_eq!(
        HttpConverter.add_transient_prefix(
            &HttpConverter
                .remove_transient_prefix("rpc-transit-test-key")
                .unwrap()
        ),
        "rpc-transit-test-key",
    );
    assert_eq!(
        HttpConverter.add_backward_prefix(
            &HttpConverter
                .remove_backward_prefix("rpc-backward-test-key")
                .unwrap()
        ),
        "rpc-backward-test-key",
    );
}

#[test]
fn empty_key_round_trip() {
    assert_eq!(RpcConverter.add_persistent_prefix(""), "RPC_PERSIST_");
    assert_eq!(
        RpcConverter.remove_persistent_prefix("RPC_PERSIST_").as_deref(),
        Some(""),
    );
    assert_eq!(HttpConverter.add_persistent_prefix(""), "rpc-persist-");
    assert_eq!(
        HttpConverter.remove_persistent_prefix("rpc-persist-").as_deref(),
        Some(""),
    );
}

#[test]
fn format_keeps_other_characters() {
    assert_eq!(HttpConverter.to_http_format_string("A1_B2"), "a1-b2");
    assert_eq!(HttpConverter.to_rpc_format_string("a1-b2"), "A1_B2");
    // digits, punctuation and non-ASCII characters pass through unchanged
    assert_eq!(HttpConverter.to_http_format_string("K\u{00C9}Y.9"), "k\u{00C9}y.9");
    assert_eq!(HttpConverter.to_rpc_format_string("k\u{00C9}y.9"), "K\u{00C9}Y.9");
}

#[test]
fn remove_prefix_needs_whole_prefix() {
    assert_eq!(RpcConverter.remove_persistent_prefix("RPC_PERSIST").as_deref(), None);
    assert_eq!(RpcConverter.remove_persistent_prefix("").as_deref(), None);
    assert_eq!(HttpConverter.remove_transient_prefix("rpc-transit").as_deref(), None);
}
