use usys::add;
use usys::service::{Reply, Service, FIRST_ID, LAST_ID, SYS_CLOSE, SYS_FORK, SYS_WRITE};
use usys::stat::{Stat, DEV_OFFSET, INO_OFFSET, NLINK_OFFSET, SIZE_OFFSET, STAT_SIZE, TYPE_OFFSET};

const ALL: [Service; 21] = [
    Service::Fork,
    Service::Exit,
    Service::Wait,
    Service::Pipe,
    Service::Read,
    Service::Kill,
    Service::Exec,
    Service::Fstat,
    Service::Chdir,
    Service::Dup,
    Service::Getpid,
    Service::Sbrk,
    Service::Sleep,
    Service::Uptime,
    Service::Open,
    Service::Write,
    Service::Mknod,
    Service::Unlink,
    Service::Link,
    Service::Mkdir,
    Service::Close,
];

#[test]
fn it_works() {
    let result = add(2, 2);
    assert_eq!(result, 4);
}

#[test]
fn ids_follow_dispatch_table() {
    for (i, s) in ALL.iter().enumerate() {
        assert_eq!(s.id() as usize, i + 1);
    }
    assert_eq!(Service::Fork.id(), SYS_FORK);
    assert_eq!(Service::Sbrk.id(), 12);
    assert_eq!(Service::Write.id(), SYS_WRITE);
    assert_eq!(Service::Close.id(), SYS_CLOSE);
}

#[test]
fn ids_unique_and_dense() {
    let mut seen = [false; 22];
    for s in ALL.iter() {
        let id = s.id() as usize;
        assert!(id >= FIRST_ID as usize && id <= LAST_ID as usize);
        assert!(!seen[id]);
        seen[id] = true;
    }
    assert!(seen[1..].iter().all(|b| *b));
}

#[test]
fn from_id_inverts_id() {
    for s in ALL.iter() {
        assert_eq!(Service::from_id(s.id()), Some(*s));
    }
    assert_eq!(Service::from_id(8), Some(Service::Fstat));
}

#[test]
fn from_id_rejects_unknown() {
    assert_eq!(Service::from_id(0), None);
    assert_eq!(Service::from_id(22), None);
    assert_eq!(Service::from_id(u32::MAX), None);
}

#[test]
fn call_shapes() {
    assert_eq!(Service::Fork.arity(), 0);
    assert_eq!(Service::Read.arity(), 3);
    assert_eq!(Service::Write.arity(), 3);
    assert_eq!(Service::Mknod.arity(), 3);
    assert_eq!(Service::Link.arity(), 2);
    assert_eq!(Service::Close.arity(), 1);
    assert_eq!(Service::Exit.reply(), Reply::Never);
    assert_eq!(Service::Exec.reply(), Reply::OnlyOnFailure);
    assert_eq!(Service::Sbrk.reply(), Reply::Address);
    assert_eq!(Service::Open.reply(), Reply::Status);
    assert_eq!(Service::Fstat.output_arg(), Some(1));
    assert_eq!(Service::Read.output_arg(), Some(1));
    assert_eq!(Service::Pipe.output_arg(), Some(0));
    assert_eq!(Service::Wait.output_arg(), Some(0));
    assert_eq!(Service::Write.output_arg(), None);
}

#[test]
fn stat_layout_offsets() {
    assert_eq!(DEV_OFFSET, 0);
    assert_eq!(INO_OFFSET, 4);
    assert_eq!(TYPE_OFFSET, 8);
    assert_eq!(NLINK_OFFSET, 10);
    assert_eq!(SIZE_OFFSET, 16);
    assert_eq!(STAT_SIZE, 24);
}

#[test]
fn stat_bytes_exact() {
    let s = Stat { dev: 1, ino: 0x0403_0201, file_type: 2, nlink: 0x0105, size: 0x0807_0605_0403_0201 };
    let b = s.to_bytes();
    assert_eq!(
        b,
        vec![
            1, 0, 0, 0, 1, 2, 3, 4, 2, 0, 5, 1, 0, 0, 0, 0, 1, 2, 3, 4, 5, 6, 7, 8
        ]
    );
}

#[test]
fn stat_negative_fields() {
    let s = Stat { dev: -1, ino: 0, file_type: -2, nlink: i16::MIN, size: 0 };
    let b = s.to_bytes();
    assert_eq!(&b[0..4], &[0xff, 0xff, 0xff, 0xff]);
    assert_eq!(&b[8..10], &[0xfe, 0xff]);
    assert_eq!(&b[10..12], &[0x00, 0x80]);
    assert_eq!(Stat::from_bytes(&b), Some(s));
}

#[test]
fn stat_round_trip() {
    let cases = [
        Stat { dev: 0, ino: 0, file_type: 0, nlink: 0, size: 0 },
        Stat { dev: 1, ino: 23, file_type: 2, nlink: 1, size: 4096 },
        Stat { dev: i32::MIN, ino: u32::MAX, file_type: i16::MAX, nlink: i16::MIN, size: u64::MAX },
        Stat { dev: i32::MAX, ino: 1, file_type: -1, nlink: 3, size: 1 << 40 },
    ];
    for s in cases.iter() {
        let b = s.to_bytes();
        assert_eq!(b.len(), STAT_SIZE);
        assert_eq!(Stat::from_bytes(&b), Some(*s));
    }
}

#[test]
fn stat_from_kernel_bytes() {
    let mut b = vec![0u8; 32];
    b[0] = 1;
    b[4] = 0x2a;
    b[8] = 3;
    b[10] = 2;
    b[12] = 0xaa;
    b[16] = 0x00;
    b[17] = 0x02;
    let s = Stat::from_bytes(&b).unwrap();
    assert_eq!(s, Stat { dev: 1, ino: 42, file_type: 3, nlink: 2, size: 512 });
}

#[test]
fn stat_short_buffer() {
    assert_eq!(Stat::from_bytes(&[0u8; 23]), None);
    assert_eq!(Stat::from_bytes(&[]), None);
    assert!(Stat::from_bytes(&[0u8; 24]).is_some());
}
