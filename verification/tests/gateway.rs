use l1_sync::gateway::{
    create_json_response, create_response_with_json_body, internal_error_response,
    not_found_response, not_implemented_response, service_unavailable_response, StarknetErrorCode,
};
use l1_sync::params::{
    block_id_from_params, get_params_from_request, include_block_params, parse_u64, QueryParams,
};
use l1_sync::rpc::{get_class_hash_at, ClassHashLookup, StarknetRpcApiError};
use l1_sync::types::{BlockId, BlockTag, Felt252};

fn felt(v: u64) -> Felt252 {
    Felt252 { d0: 0, d1: 0, d2: 0, d3: v }
}

fn params(query: &str) -> QueryParams {
    get_params_from_request(query)
}

#[test]
fn fixed_responses_carry_their_status_and_body() {
    let r = service_unavailable_response("Feeder");
    assert_eq!(r.status, 503);
    assert!(!r.json);
    assert_eq!(r.body, "Feeder Service disabled");
    let r = not_found_response();
    assert_eq!((r.status, r.body.as_str()), (404, "Not Found"));
    let r = internal_error_response();
    assert_eq!((r.status, r.body.as_str()), (500, "Internal Server Error"));
    let r = not_implemented_response();
    assert_eq!((r.status, r.body.as_str()), (501, "Not Implemented"));
}

#[test]
fn json_response_wraps_a_serialized_body() {
    let r = create_json_response(200, Some("{\"a\":1}".to_string()));
    assert_eq!((r.status, r.json, r.body.as_str()), (200, true, "{\"a\":1}"));
}

#[test]
fn json_response_without_a_body_is_an_internal_error() {
    let r = create_json_response(200, None);
    assert_eq!((r.status, r.json, r.body.as_str()), (500, false, "Internal Server Error"));
}

#[test]
fn json_body_response_keeps_status_and_body() {
    let r = create_response_with_json_body(400, "{\"code\":\"MALFORMED_REQUEST\"}");
    assert_eq!((r.status, r.json, r.body.as_str()), (400, true, "{\"code\":\"MALFORMED_REQUEST\"}"));
}

#[test]
fn query_parsing_keeps_well_formed_pairs() {
    let qp = params("blockNumber=12&includeBlock=true");
    assert_eq!(qp.get("blockNumber").map(|s| s.as_str()), Some("12"));
    assert_eq!(qp.get("includeBlock").map(|s| s.as_str()), Some("true"));
    assert_eq!(qp.get("blockHash"), None);
}

#[test]
fn query_parsing_skips_malformed_segments() {
    let qp = params("plain&a=1=2&b=3");
    assert_eq!(qp.get("plain"), None);
    assert_eq!(qp.get("a"), None);
    assert_eq!(qp.get("b").map(|s| s.as_str()), Some("3"));
}

#[test]
fn later_binding_of_a_key_shadows_the_earlier() {
    let qp = params("k=1&k=2");
    assert_eq!(qp.get("k").map(|s| s.as_str()), Some("2"));
}

#[test]
fn empty_query_holds_no_pairs() {
    let qp = params("");
    assert_eq!(qp.get(""), None);
    assert_eq!(qp.get("blockNumber"), None);
}

#[test]
fn empty_key_and_value_are_kept() {
    let qp = params("=");
    assert_eq!(qp.get("").map(|s| s.as_str()), Some(""));
}

#[test]
fn include_block_requires_exactly_true() {
    assert!(include_block_params(&params("includeBlock=true")));
    assert!(!include_block_params(&params("includeBlock=false")));
    assert!(!include_block_params(&params("includeBlock=True")));
    assert!(!include_block_params(&params("blockNumber=1")));
}

#[test]
fn block_id_accepts_the_tags() {
    assert_eq!(
        block_id_from_params(&params("blockNumber=latest")),
        Ok(BlockId::Tag(BlockTag::Latest))
    );
    assert_eq!(
        block_id_from_params(&params("blockNumber=pending")),
        Ok(BlockId::Tag(BlockTag::Pending))
    );
}

#[test]
fn block_id_accepts_a_decimal_height() {
    assert_eq!(block_id_from_params(&params("blockNumber=123")), Ok(BlockId::Number(123)));
    assert_eq!(block_id_from_params(&params("blockNumber=+5")), Ok(BlockId::Number(5)));
}

#[test]
fn block_id_rejects_a_malformed_height() {
    for q in ["blockNumber=abc", "blockNumber=", "blockNumber=+", "blockNumber=18446744073709551616"]
    {
        match block_id_from_params(&params(q)) {
            Err(e) => assert_eq!(e.code, StarknetErrorCode::MalformedRequest),
            Ok(_) => panic!("{q} must be rejected"),
        }
    }
}

#[test]
fn block_id_parses_a_hex_hash() {
    assert_eq!(block_id_from_params(&params("blockHash=0x1a")), Ok(BlockId::Hash(felt(0x1a))));
    assert_eq!(
        block_id_from_params(&params("blockHash=ff")),
        Ok(BlockId::Hash(felt(0xff)))
    );
    assert_eq!(
        block_id_from_params(&params("blockHash=0x10000000000000000")),
        Ok(BlockId::Hash(Felt252 { d0: 0, d1: 0, d2: 1, d3: 0 }))
    );
}

#[test]
fn block_id_hash_at_the_field_prime_reduces_to_zero() {
    let prime = "blockHash=0x800000000000011000000000000000000000000000000000000000000000001";
    assert_eq!(block_id_from_params(&params(prime)), Ok(BlockId::Hash(felt(0))));
}

#[test]
fn block_id_rejects_a_malformed_hash() {
    for q in [
        "blockHash=zz",
        "blockHash=",
        "blockHash=0x",
        // one above the field prime
        "blockHash=0x800000000000011000000000000000000000000000000000000000000000002",
        // 65 hex digits
        "blockHash=0x10000000000000000000000000000000000000000000000000000000000000000",
    ] {
        match block_id_from_params(&params(q)) {
            Err(e) => assert_eq!(e.code, StarknetErrorCode::MalformedRequest),
            Ok(_) => panic!("{q} must be rejected"),
        }
    }
}

#[test]
fn block_number_takes_precedence_over_hash() {
    let qp = params("blockNumber=7&blockHash=0x1a");
    assert_eq!(block_id_from_params(&qp), Ok(BlockId::Number(7)));
}

#[test]
fn block_id_without_either_key_is_malformed() {
    match block_id_from_params(&params("includeBlock=true")) {
        Err(e) => assert_eq!(e.code, StarknetErrorCode::MalformedRequest),
        Ok(_) => panic!("a request naming no block must be rejected"),
    }
}

#[test]
fn parse_u64_handles_edges() {
    assert_eq!(parse_u64("0"), Some(0));
    assert_eq!(parse_u64("007"), Some(7));
    assert_eq!(parse_u64("18446744073709551615"), Some(u64::MAX));
    assert_eq!(parse_u64("18446744073709551616"), None);
    assert_eq!(parse_u64(""), None);
    assert_eq!(parse_u64("+"), None);
    assert_eq!(parse_u64("1 2"), None);
    assert_eq!(parse_u64("-1"), None);
}

#[test]
fn class_hash_lookup_outcomes_map_to_answers() {
    assert_eq!(get_class_hash_at(ClassHashLookup::Found(felt(77))), Ok(felt(77)));
    assert_eq!(
        get_class_hash_at(ClassHashLookup::NotDeployed),
        Err(StarknetRpcApiError::ContractNotFound)
    );
    assert_eq!(
        get_class_hash_at(ClassHashLookup::StorageFailure),
        Err(StarknetRpcApiError::InternalServerError)
    );
}
