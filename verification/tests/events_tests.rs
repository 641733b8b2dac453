use focusrite_watch::events::{cookie_string, flags_string, path_string, EventKind, EventMask};
use inotify::EventMask as InotifyMask;

fn kinds(bits: u32) -> Vec<EventKind> {
    EventKind::to_vec(&EventMask::from_bits_retain(bits))
}

fn table() -> Vec<(InotifyMask, EventKind)> {
    vec![
        (InotifyMask::ACCESS, EventKind::Access),
        (InotifyMask::ATTRIB, EventKind::Attrib),
        (InotifyMask::CLOSE_NOWRITE, EventKind::CloseNoWrite),
        (InotifyMask::CLOSE_WRITE, EventKind::CloseWrite),
        (InotifyMask::CREATE, EventKind::Create),
        (InotifyMask::DELETE, EventKind::Delete),
        (InotifyMask::DELETE_SELF, EventKind::DeleteSelf),
        (InotifyMask::MODIFY, EventKind::Modify),
        (InotifyMask::MOVE_SELF, EventKind::MoveSelf),
        (InotifyMask::MOVED_FROM, EventKind::MovedFrom),
        (InotifyMask::MOVED_TO, EventKind::MovedTo),
        (InotifyMask::OPEN, EventKind::Open),
        (InotifyMask::IGNORED, EventKind::Ignored),
        (InotifyMask::ISDIR, EventKind::IsDir),
        (InotifyMask::Q_OVERFLOW, EventKind::QueueOverflow),
        (InotifyMask::UNMOUNT, EventKind::Unmount),
    ]
}

#[test]
fn each_inotify_flag_names_its_own_kind() {
    for (flag, kind) in table() {
        assert_eq!(kinds(flag.bits()), vec![kind]);
        let mask = EventMask::from_bits_retain(flag.bits());
        assert_eq!(EventKind::from_mask_bit(&mask), kind);
    }
}

#[test]
fn all_flags_come_out_in_table_order() {
    let all = table().iter().fold(0u32, |acc, (flag, _)| acc | flag.bits());
    let expected: Vec<EventKind> = table().into_iter().map(|(_, k)| k).collect();
    assert_eq!(kinds(all), expected);
    assert_eq!(kinds(all).len(), 16);
}

#[test]
fn close_names_nowrite_before_write() {
    let close = (InotifyMask::CLOSE_WRITE | InotifyMask::CLOSE_NOWRITE).bits();
    assert_eq!(kinds(close), vec![EventKind::CloseNoWrite, EventKind::CloseWrite]);
}

#[test]
fn create_of_a_directory() {
    let m = (InotifyMask::CREATE | InotifyMask::ISDIR).bits();
    assert_eq!(kinds(m), vec![EventKind::Create, EventKind::IsDir]);
    assert_eq!(flags_string(&EventMask::from_bits_retain(m)), "Create,IsDir");
}

#[test]
fn empty_mask_names_nothing() {
    assert!(kinds(0).is_empty());
    assert_eq!(flags_string(&EventMask::from_bits_retain(0)), "");
}

#[test]
fn unnamed_flags_are_ignored_by_to_vec() {
    // IN_ONESHOT and IN_ONLYDIR have no kind of their own.
    assert!(kinds(0x8000_0000 | 0x0100_0000).is_empty());
    assert_eq!(kinds(0x8000_0000 | 0x0000_0200), vec![EventKind::Delete]);
}

#[test]
fn from_mask_bit_unknown_and_priority() {
    let none = EventMask::from_bits_retain(0x8000_0000);
    assert_eq!(EventKind::from_mask_bit(&none), EventKind::Unknown(none));
    let zero = EventMask::from_bits_retain(0);
    assert_eq!(EventKind::from_mask_bit(&zero), EventKind::Unknown(zero));
    // The first flag of the table wins.
    let both = EventMask::from_bits_retain((InotifyMask::DELETE | InotifyMask::CREATE).bits());
    assert_eq!(EventKind::from_mask_bit(&both), EventKind::Create);
    let m = EventMask::from_bits_retain((InotifyMask::MODIFY | InotifyMask::CLOSE_WRITE).bits());
    assert_eq!(EventKind::from_mask_bit(&m), EventKind::CloseWrite);
}

#[test]
fn union_of_masks_names_kinds_of_either() {
    let a = (InotifyMask::CREATE | InotifyMask::OPEN).bits();
    let b = (InotifyMask::OPEN | InotifyMask::UNMOUNT).bits();
    let u = kinds(a | b);
    for k in kinds(a).into_iter().chain(kinds(b)) {
        assert!(u.contains(&k));
    }
    assert_eq!(u, vec![EventKind::Create, EventKind::Open, EventKind::Unmount]);
}

#[test]
fn intersects_and_bits() {
    let a = EventMask::from_bits_retain(0b0110);
    assert_eq!(a.bits(), 0b0110);
    assert!(a.intersects(&EventMask::from_bits_retain(0b0100)));
    assert!(!a.intersects(&EventMask::from_bits_retain(0b1001)));
}

#[test]
fn kind_names_match_debug() {
    for (_, kind) in table() {
        assert_eq!(kind.name(), format!("{:?}", kind));
    }
    assert_eq!(EventKind::Unknown(EventMask::from_bits_retain(1)).name(), "Unknown");
}

#[test]
fn flags_string_matches_debug_join() {
    let m = (InotifyMask::ACCESS | InotifyMask::MOVED_TO | InotifyMask::Q_OVERFLOW).bits();
    let expected = kinds(m)
        .into_iter()
        .map(|k| format!("{:?}", k))
        .collect::<Vec<String>>()
        .join(",");
    assert_eq!(flags_string(&EventMask::from_bits_retain(m)), expected);
    assert_eq!(expected, "Access,MovedTo,QueueOverflow");
}

#[test]
fn cookie_is_upper_hex_or_none() {
    assert_eq!(cookie_string(0), "(none)");
    assert_eq!(cookie_string(1), "1");
    assert_eq!(cookie_string(0xBEEF), "BEEF");
    assert_eq!(cookie_string(16), "10");
    assert_eq!(cookie_string(u32::MAX), "FFFFFFFF");
    for c in [1u32, 9, 10, 15, 255, 4096, 0x1234_ABCD, 0x8000_0000] {
        assert_eq!(cookie_string(c), format!("{:X}", c));
    }
}

#[test]
fn count_is_number_of_table_flags_held() {
    let all = table().iter().fold(0u32, |acc, (flag, _)| acc | flag.bits());
    for m in [0u32, 1, 0x18, 0xFFFF_FFFF, 0x8000_0300, 0x4000_4000, 0x1234_5678] {
        assert_eq!(kinds(m).len() as u32, (m & all).count_ones());
        assert!(kinds(m).len() <= 16);
    }
}

#[test]
fn submask_kinds_are_a_subsequence() {
    let b = (InotifyMask::ACCESS | InotifyMask::CREATE | InotifyMask::DELETE | InotifyMask::ISDIR).bits();
    let a = (InotifyMask::ISDIR | InotifyMask::ACCESS).bits();
    let kb = kinds(b);
    let ka = kinds(a);
    let filtered: Vec<EventKind> = kb.iter().copied().filter(|k| ka.contains(k)).collect();
    assert_eq!(ka, filtered);
    assert_eq!(ka, vec![EventKind::Access, EventKind::IsDir]);
    assert!(ka.len() <= kb.len());
}

#[test]
fn path_is_name_or_none() {
    assert_eq!(path_string(None), "(none)");
    assert_eq!(path_string(Some("/dev/snd/pcmC0D0p".to_string())), "/dev/snd/pcmC0D0p");
}
