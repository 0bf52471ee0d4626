use divergence_alert::telegram::{api_url, delivery_outcome, distinct_chat_ids, DeliveryError};

#[test]
fn delivery_status() {
    assert_eq!(delivery_outcome(200), Ok(()));
    assert_eq!(delivery_outcome(299), Ok(()));
    assert_eq!(delivery_outcome(199), Err(DeliveryError::Rejected(199)));
    assert_eq!(delivery_outcome(300), Err(DeliveryError::Rejected(300)));
    assert_eq!(delivery_outcome(401), Err(DeliveryError::Rejected(401)));
}

#[test]
fn endpoint_urls() {
    assert_eq!(api_url("123:abc", "sendMessage"), "https://api.telegram.org/bot123:abc/sendMessage");
    assert_eq!(api_url("t", "getUpdates"), "https://api.telegram.org/bott/getUpdates");
}

#[test]
fn chat_ids_dedup_in_order() {
    let updates = vec![Some(5), None, Some(-3), Some(5), Some(7), None, Some(-3)];
    assert_eq!(distinct_chat_ids(&updates), vec![5, -3, 7]);
    assert!(distinct_chat_ids(&vec![None, None]).is_empty());
}
