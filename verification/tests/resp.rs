use bytes::BytesMut;
use redis_core::resp::types::RespType;
use redis_core::resp::{
    create_array_resp, create_basic_err_resp, create_bulk_string_resp, create_int_resp,
    create_len_resp, create_null_bulk_string_resp, create_simple_string_resp, RespError,
};

#[test]
fn test_simple_string() {
    let mut buffer = BytesMut::new();
    buffer.extend_from_slice(b"+OK\r\n");

    let result = RespType::simple_string(&buffer, 1);
    assert!(result.is_ok());

    let (resp, _) = result.unwrap();
    match resp {
        RespType::String(s) => assert_eq!(s, b"OK"),
        _ => panic!("Expected String type"),
    }
}

#[test]
fn test_bulk_string() {
    let mut buffer = BytesMut::new();
    buffer.extend_from_slice(b"$5\r\nhello\r\n");

    let result = RespType::bulk_string(&buffer, 1);
    assert!(result.is_ok());

    let (resp, _) = result.unwrap();
    match resp {
        RespType::String(s) => assert_eq!(s, b"hello"),
        _ => panic!("Expected String type"),
    }
}

#[test]
fn test_array() {
    let mut buffer = BytesMut::new();
    buffer.extend_from_slice(b"*2\r\n$4\r\nECHO\r\n$5\r\nhello\r\n");

    let result = RespType::array(&buffer, 1);
    println!("{:?}", result.as_ref().err());
    assert!(result.is_ok());

    let (resp, _) = result.unwrap();
    match resp {
        RespType::Array(arr) => {
            assert_eq!(arr.len(), 2);
            match &arr[0] {
                RespType::String(s) => assert_eq!(s, b"ECHO"),
                _ => panic!("Expected String type"),
            }
            match &arr[1] {
                RespType::String(s) => assert_eq!(s, b"hello"),
                _ => panic!("Expected String type"),
            }
        },
        _ => panic!("Expected Array type"),
    }
}

#[test]
fn test_array_single() {
    let mut buffer = BytesMut::new();
    buffer.extend_from_slice(b"*1\r\n$4\r\nPING\r\n");

    let result = RespType::array(&buffer, 1);
    println!("{:?}", result.as_ref().err());
    assert!(result.is_ok());

    let (resp, _) = result.unwrap();
    match resp {
        RespType::Array(arr) => {
            assert_eq!(arr.len(), 1);
            match &arr[0] {
                RespType::String(s) => assert_eq!(s, b"PING"),
                _ => panic!("Expected String type"),
            }
        },
        _ => panic!("Expected Array type"),
    }
}

fn buffer(bytes: &[u8]) -> BytesMut {
    let mut buffer = BytesMut::new();
    buffer.extend_from_slice(bytes);
    buffer
}

#[test]
fn encoders_write_the_five_frame_types() {
    assert_eq!(create_simple_string_resp(b"OK".to_vec()), b"+OK\r\n");
    assert_eq!(create_basic_err_resp(b"ERR no".to_vec()), b"-ERR no\r\n");
    assert_eq!(create_bulk_string_resp(b"hello".to_vec()), b"$5\r\nhello\r\n");
    assert_eq!(create_bulk_string_resp(Vec::new()), b"$0\r\n\r\n");
    assert_eq!(create_null_bulk_string_resp(), b"$-1\r\n");
    assert_eq!(create_int_resp(42), b":42\r\n");
    assert_eq!(create_int_resp(-7), b":-7\r\n");
    assert_eq!(create_int_resp(0), b":0\r\n");
    assert_eq!(create_int_resp(i64::MIN), b":-9223372036854775808\r\n");
    assert_eq!(create_int_resp(i64::MAX), b":9223372036854775807\r\n");
    assert_eq!(create_len_resp(12), b":12\r\n");
    assert_eq!(
        create_array_resp(vec![b"+a\r\n".to_vec(), b":1\r\n".to_vec()]),
        b"*2\r\n+a\r\n:1\r\n"
    );
    assert_eq!(create_array_resp(vec![]), b"*0\r\n");
}

#[test]
fn parse_reads_every_frame_type() {
    let data = buffer(b"+OK\r\n-ERR x\r\n:-12\r\n$3\r\na\rb\r\n$-1\r\n*-1\r\n*0\r\n");
    let (frame, next) = RespType::parse(&data, 0).unwrap();
    assert!(matches!(frame, RespType::String(ref s) if s == b"OK"));
    assert_eq!(next, 5);
    let (frame, next) = RespType::parse(&data, next).unwrap();
    assert!(matches!(frame, RespType::Error(ref s) if s == b"ERR x"));
    assert_eq!(next, 13);
    let (frame, next) = RespType::parse(&data, next).unwrap();
    assert!(matches!(frame, RespType::Int(-12)));
    assert_eq!(next, 19);
    let (frame, next) = RespType::parse(&data, next).unwrap();
    assert!(matches!(frame, RespType::String(ref s) if s == b"a\rb"));
    assert_eq!(next, 28);
    let (frame, next) = RespType::parse(&data, next).unwrap();
    assert!(matches!(frame, RespType::NullBulkString));
    assert_eq!(next, 33);
    let (frame, next) = RespType::parse(&data, next).unwrap();
    assert!(matches!(frame, RespType::NullArray));
    assert_eq!(next, 38);
    let (frame, next) = RespType::parse(&data, next).unwrap();
    assert!(matches!(frame, RespType::Array(ref items) if items.is_empty()));
    assert_eq!(next, 42);
    assert!(matches!(RespType::parse(&data, next), Err(RespError::Incomplete)));
}

#[test]
fn parse_tells_incomplete_from_malformed() {
    for cut in [b"".as_slice(), b"+OK", b"+OK\r", b"$5\r\nhel", b"$5\r\nhello\r", b"*2\r\n:1\r\n", b":12"] {
        assert!(
            matches!(RespType::parse(&buffer(cut), 0), Err(RespError::Incomplete)),
            "{:?}",
            cut
        );
    }
    assert!(matches!(
        RespType::parse(&buffer(b"+O\nK\r\n"), 0),
        Err(RespError::InvalidSimpleString(_))
    ));
    assert!(matches!(
        RespType::parse(&buffer(b"-O\rK\r\n"), 0),
        Err(RespError::InvalidSimpleString(_))
    ));
    assert!(matches!(RespType::parse(&buffer(b":1x\r\n"), 0), Err(RespError::InvalidInteger(_))));
    assert!(matches!(
        RespType::parse(&buffer(b":9223372036854775808\r\n"), 0),
        Err(RespError::InvalidInteger(_))
    ));
    assert!(matches!(
        RespType::parse(&buffer(b"$-2\r\n"), 0),
        Err(RespError::InvalidBulkString(_))
    ));
    assert!(matches!(
        RespType::parse(&buffer(b"$2\r\nabcd\r\n"), 0),
        Err(RespError::InvalidBulkString(_))
    ));
    assert!(matches!(RespType::parse(&buffer(b"*x\r\n"), 0), Err(RespError::InvalidArray(_))));
    assert!(matches!(
        RespType::parse(&buffer(b"*1\r\n?\r\n"), 0),
        Err(RespError::InvalidArray(_))
    ));
    assert!(matches!(RespType::parse(&buffer(b"?\r\n"), 0), Err(RespError::Other(_))));
}

#[test]
fn parse_gives_back_what_encode_wrote() {
    let frames = vec![
        RespType::String(b"hello\r\nworld".to_vec()),
        RespType::String(Vec::new()),
        RespType::Error(b"ERR boom".to_vec()),
        RespType::Int(i64::MIN),
        RespType::Int(i64::MAX),
        RespType::NullArray,
        RespType::NullBulkString,
        RespType::Array(vec![
            RespType::String(b"SET".to_vec()),
            RespType::Array(vec![RespType::Int(1), RespType::NullBulkString]),
            RespType::Array(vec![]),
        ]),
    ];
    for frame in frames {
        let bytes = frame.encode();
        let (back, next) = RespType::parse(&buffer(&bytes), 0).unwrap();
        assert_eq!(next, bytes.len());
        assert_eq!(back.encode(), bytes);
        assert_eq!(format!("{:?}", back), format!("{:?}", frame));
    }
}

#[test]
fn parse_reads_a_frame_in_the_middle_of_a_buffer() {
    let data = buffer(b"xx*1\r\n$4\r\nPING\r\nyy");
    let (frame, next) = RespType::parse(&data, 2).unwrap();
    assert_eq!(next, 16);
    assert_eq!(frame.encode(), b"*1\r\n$4\r\nPING\r\n");
}
