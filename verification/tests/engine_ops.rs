use mini_redis::engine::S;
use mini_redis::request::{RedisRequest, RequestType, ResponseType};

fn ping() -> RedisRequest {
    RedisRequest { request_type: RequestType::Ping, key: None, value: None }
}

fn get(k: &str) -> RedisRequest {
    RedisRequest {
        request_type: RequestType::Get,
        key: Some(vec![k.to_string()]),
        value: None,
    }
}

fn set(k: &str, v: &str) -> RedisRequest {
    RedisRequest {
        request_type: RequestType::SetValue,
        key: Some(vec![k.to_string()]),
        value: Some(v.to_string()),
    }
}

fn del(keys: &[&str]) -> RedisRequest {
    RedisRequest {
        request_type: RequestType::Del,
        key: Some(keys.iter().map(|k| k.to_string()).collect()),
        value: None,
    }
}

fn primary() -> S {
    S::new("redis.aof".to_string(), true)
}

#[test]
fn ping_returns_pong() {
    let mut node = primary();
    let out = node.redis_command(&ping());
    let resp = out.response.unwrap();
    assert_eq!(resp.response_type, ResponseType::Value);
    assert_eq!(resp.value.as_deref(), Some("PONG"));
    assert!(out.log_record.is_none());
    assert!(!out.propagate);
    assert!(!out.role_violation);
    assert!(!out.terminate);
}

#[test]
fn set_then_get_round_trip() {
    let mut node = primary();
    let out = node.redis_command(&set("color", "blue"));
    let resp = out.response.unwrap();
    assert_eq!(resp.response_type, ResponseType::Okay);
    assert_eq!(resp.value.as_deref(), Some("\"OK\""));
    let out = node.redis_command(&get("color"));
    assert_eq!(out.response.unwrap().value.as_deref(), Some("blue"));
}

#[test]
fn get_absent_returns_nil() {
    let mut node = primary();
    let out = node.redis_command(&get("missing"));
    let resp = out.response.unwrap();
    assert_eq!(resp.response_type, ResponseType::Value);
    assert_eq!(resp.value.as_deref(), Some("nil"));
}

#[test]
fn del_counts_only_existing() {
    let mut node = primary();
    node.redis_command(&set("k1", "v1"));
    let out = node.redis_command(&del(&["k1", "k2"]));
    assert_eq!(out.response.unwrap().value.as_deref(), Some("(integer) 1"));
    let out = node.redis_command(&get("k1"));
    assert_eq!(out.response.unwrap().value.as_deref(), Some("nil"));
    let out = node.redis_command(&get("k2"));
    assert_eq!(out.response.unwrap().value.as_deref(), Some("nil"));
}

#[test]
fn overwrite_returns_latest_value() {
    let mut node = primary();
    node.redis_command(&set("k", "v1"));
    node.redis_command(&set("k", "v2"));
    let out = node.redis_command(&get("k"));
    assert_eq!(out.response.unwrap().value.as_deref(), Some("v2"));
}

#[test]
fn del_counts_repeated_and_multiple_keys() {
    let mut node = primary();
    node.redis_command(&set("a", "1"));
    node.redis_command(&set("b", "2"));
    let out = node.redis_command(&del(&["a", "a", "b", "c"]));
    assert_eq!(out.response.unwrap().value.as_deref(), Some("(integer) 2"));
}

#[test]
fn primary_mutation_owes_log_and_fanout() {
    let mut node = primary();
    let out = node.redis_command(&set("k", "v"));
    assert_eq!(out.log_record.as_deref(), Some("SET k v"));
    assert!(out.propagate);
    assert!(!out.role_violation);
    let out = node.redis_command(&del(&["k"]));
    assert_eq!(out.log_record.as_deref(), Some("DEL k"));
    assert!(out.propagate);
}

#[test]
fn replica_mutation_is_violation_but_applies() {
    let mut replica = S::new("replica.aof".to_string(), false);
    let out = replica.redis_command(&set("k", "v"));
    assert!(out.role_violation);
    assert!(!out.propagate);
    assert!(out.log_record.is_some());
    let out = replica.redis_command(&get("k"));
    assert_eq!(out.response.unwrap().value.as_deref(), Some("v"));
}

#[test]
fn exit_terminates_without_response() {
    let mut node = primary();
    let out = node.redis_command(&RedisRequest {
        request_type: RequestType::Exit,
        key: None,
        value: None,
    });
    assert!(out.terminate);
    assert!(out.response.is_none());
    assert!(out.log_record.is_none());
    assert!(!out.propagate);
}

#[test]
fn illegal_reaching_engine_answers_default() {
    let mut node = primary();
    let out = node.redis_command(&RedisRequest {
        request_type: RequestType::Illegal,
        key: None,
        value: None,
    });
    let resp = out.response.unwrap();
    assert_eq!(resp.response_type, ResponseType::Okay);
    assert!(resp.value.is_none());
    assert!(!out.terminate);
}

#[test]
fn disjoint_commands_commute() {
    let mut first_order = primary();
    first_order.redis_command(&set("a", "1"));
    first_order.redis_command(&set("b", "2"));
    first_order.redis_command(&del(&["a"]));
    first_order.redis_command(&set("c", "3"));

    // the same commands, with only commands on disjoint keys swapped
    let mut second_order = primary();
    second_order.redis_command(&set("b", "2"));
    second_order.redis_command(&set("c", "3"));
    second_order.redis_command(&set("a", "1"));
    second_order.redis_command(&del(&["a"]));

    for k in ["a", "b", "c"] {
        let x = first_order.redis_command(&get(k)).response.unwrap().value;
        let y = second_order.redis_command(&get(k)).response.unwrap().value;
        assert_eq!(x, y);
    }
}
