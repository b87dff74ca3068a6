use bucket_store::models::{
    bucket_name_is_valid, BucketResponse, BucketVersioning, InsertBucket, Kind, ListKind,
    ListResponse, UpdateBucket,
};
use bucket_store::server::{CommandArgs, Protocol, Server};
use bucket_store::storage::{StorageBucketAttr, UpdateBucketAttr};

#[test]
fn bucket_names_follow_the_pattern() {
    assert!(bucket_name_is_valid("ab"));
    assert!(bucket_name_is_valid("my-bucket_1.data"));
    assert!(bucket_name_is_valid("A9"));
    assert!(!bucket_name_is_valid(""));
    assert!(!bucket_name_is_valid("a"));
    assert!(!bucket_name_is_valid("-ab"));
    assert!(!bucket_name_is_valid("ab."));
    assert!(!bucket_name_is_valid("a b"));
    assert!(!bucket_name_is_valid("a/b"));
    assert!(!bucket_name_is_valid("aé"));
    assert!(!bucket_name_is_valid("éab"));
}

#[test]
fn insert_request_defaults() {
    let req = InsertBucket {
        name: "new-bucket".to_string(),
        versioning: None,
        default_event_based_hold: true,
        location: None,
    };
    assert!(req.has_valid_name());
    let attr = req.to_create_attr();
    assert!(!attr.versioning);
    assert!(attr.default_event_based_hold);
    assert_eq!(attr.location, "US");
}

#[test]
fn insert_request_given_values() {
    let req = InsertBucket {
        name: "_bad".to_string(),
        versioning: Some(BucketVersioning { enabled: true }),
        default_event_based_hold: false,
        location: Some("EU".to_string()),
    };
    assert!(!req.has_valid_name());
    let attr = req.to_create_attr();
    assert!(attr.versioning);
    assert_eq!(attr.location, "EU");
}

#[test]
fn update_request_converts() {
    let attr = UpdateBucketAttr::from(UpdateBucket {
        versioning: Some(BucketVersioning { enabled: false }),
        default_event_based_hold: true,
    });
    assert_eq!(
        attr,
        UpdateBucketAttr {
            versioning: Some(false),
            default_event_based_hold: true
        }
    );
    let attr = UpdateBucketAttr::from(UpdateBucket {
        versioning: None,
        default_event_based_hold: false,
    });
    assert_eq!(attr.versioning, None);
}

fn sample(name: &str) -> StorageBucketAttr {
    StorageBucketAttr {
        name: name.to_string(),
        versioning: true,
        default_event_based_hold: false,
        location: "US-EAST1".to_string(),
        time_created: 10,
        updated: 20,
    }
}

#[test]
fn response_of_a_bucket() {
    let r = BucketResponse::from_attr(&sample("b1"));
    assert_eq!(r.kind, Kind::Bucket);
    assert_eq!(r.id, "b1");
    assert_eq!(r.name, "b1");
    assert_eq!(r.versioning, BucketVersioning { enabled: true });
    assert!(!r.default_event_based_hold);
    assert_eq!(r.time_created, 10);
    assert_eq!(r.updated, 20);
    assert_eq!(r.location, "US-EAST1");
    assert_eq!(r.storage_class, "STANDARD");
    assert_eq!(r.project_number, "1");
    assert_eq!(r.metageneration, "1");
    assert_eq!(r.etag, "tag");
    assert_eq!(r.location_type, "region");
}

#[test]
fn listing_keeps_order() {
    let list = ListResponse::from_buckets(vec![sample("x1"), sample("y1")]);
    assert_eq!(list.kind, ListKind::Buckets);
    assert_eq!(list.items.len(), 2);
    assert_eq!(list.items[0].name, "x1");
    assert_eq!(list.items[1].id, "y1");
    assert!(list.prefixes.is_empty());
    assert!(ListResponse::from_buckets(vec![]).items.is_empty());
}

#[test]
fn server_keeps_its_arguments() {
    let server = Server::new(CommandArgs {
        host: "0.0.0.0".to_string(),
        port: 8000,
        scheme: Protocol::Http,
    });
    assert_eq!(server.args().host, "0.0.0.0");
    assert_eq!(server.args().port, 8000);
    assert_eq!(server.args().scheme, Protocol::Http);
}
