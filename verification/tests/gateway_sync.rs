use mini_redis::engine::S;
use mini_redis::gateway::{GatewayError, LogLayer, LogService};
use mini_redis::request::{RedisRequest, RequestType, ResponseType};

fn get(k: &str) -> RedisRequest {
    RedisRequest {
        request_type: RequestType::Get,
        key: Some(vec![k.to_string()]),
        value: None,
    }
}

fn set(k: &str, v: &str) -> RedisRequest {
    RedisRequest {
        request_type: RequestType::SetValue,
        key: Some(vec![k.to_string()]),
        value: Some(v.to_string()),
    }
}

fn del(keys: &[&str]) -> RedisRequest {
    RedisRequest {
        request_type: RequestType::Del,
        key: Some(keys.iter().map(|k| k.to_string()).collect()),
        value: None,
    }
}

#[test]
fn gateway_rejects_illegal_before_the_engine() {
    let mut svc = LogService(S::new("redis.aof".to_string(), true));
    svc.call(&set("k", "v")).unwrap();
    let illegal = RedisRequest { request_type: RequestType::Illegal, key: None, value: None };
    let r = svc.call(&illegal);
    assert_eq!(r.err(), Some(GatewayError::IllegalRequest));
    // the store is unchanged: the earlier entry is still there, nothing else
    let out = svc.call(&get("k")).unwrap();
    assert_eq!(out.response.unwrap().value.as_deref(), Some("v"));
    assert_eq!(svc.0.map.len(), 1);
}

#[test]
fn gateway_passes_legal_requests_unaltered() {
    let mut svc = LogService(S::new("redis.aof".to_string(), true));
    let out = svc.call(&set("k", "v")).unwrap();
    let resp = out.response.unwrap();
    assert_eq!(resp.response_type, ResponseType::Okay);
    assert_eq!(resp.value.as_deref(), Some("\"OK\""));
    assert_eq!(out.log_record.as_deref(), Some("SET k v"));
    assert!(out.propagate);
}

#[test]
fn layer_wraps_a_node() {
    let node = S::new("redis.aof".to_string(), false);
    let mut svc = LogLayer.layer(node);
    let out = svc.call(&get("missing")).unwrap();
    assert_eq!(out.response.unwrap().value.as_deref(), Some("nil"));
}

#[test]
fn propagated_set_reaches_the_replica() {
    let mut primary = S::new("primary.aof".to_string(), true);
    let mut replica = S::new("replica.aof".to_string(), false);
    let req = set("k", "v");
    let out = primary.redis_command(&req);
    assert!(out.propagate);
    // the dispatcher delivers the identical command over the sync entry point
    let resp = replica.set_slave(&req);
    assert_eq!(resp.response_type, ResponseType::Okay);
    assert_eq!(resp.value.as_deref(), Some("\"OK\""));
    let out = replica.redis_command(&get("k"));
    assert_eq!(out.response.unwrap().value.as_deref(), Some("v"));
}

#[test]
fn propagated_del_reaches_the_replica() {
    let mut replica = S::new("replica.aof".to_string(), false);
    replica.set_slave(&set("a", "1"));
    replica.set_slave(&set("b", "2"));
    let resp = replica.set_slave(&del(&["a", "missing"]));
    assert_eq!(resp.response_type, ResponseType::Value);
    assert_eq!(resp.value.as_deref(), Some("(integer) 1"));
    let out = replica.redis_command(&get("a"));
    assert_eq!(out.response.unwrap().value.as_deref(), Some("nil"));
    let out = replica.redis_command(&get("b"));
    assert_eq!(out.response.unwrap().value.as_deref(), Some("2"));
}

#[test]
fn sync_ignores_non_mutating_commands() {
    let mut replica = S::new("replica.aof".to_string(), false);
    let resp = replica.set_slave(&RedisRequest {
        request_type: RequestType::Ping,
        key: None,
        value: None,
    });
    assert_eq!(resp.response_type, ResponseType::Okay);
    assert!(resp.value.is_none());
    assert_eq!(replica.map.len(), 0);
}
