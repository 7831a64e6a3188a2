use xinput_tablet::fixed::{Fixed, Transform, Unit, FRAC_ONE};
use xinput_tablet::snapshot::{usb_id_from_property, PropertyItems, UsbId};

fn whole(i: i32) -> Fixed {
    Fixed { integral: i, frac: 0 }
}

#[test]
fn whole_samples_are_exact() {
    for i in [0, 1, -1, 7, -300, i32::MAX, i32::MIN] {
        let s = whole(i).to_scaled();
        assert_eq!(s.num, i as i128 * FRAC_ONE);
        assert_eq!(s.den, FRAC_ONE);
        assert_eq!(s.num as f64 / s.den as f64, i as f64);
    }
}

#[test]
fn fraction_extends_magnitude() {
    let half: u32 = 1 << 31;
    assert_eq!(Fixed { integral: 2, frac: half }.units(), 2 * FRAC_ONE + half as i128);
    assert_eq!(Fixed { integral: -1, frac: half }.units(), -FRAC_ONE - half as i128);
    assert_eq!(Fixed { integral: 0, frac: half }.units(), half as i128);
}

#[test]
fn pressure_range_maps_to_unit_interval() {
    let min = whole(0);
    let max = whole(8191);
    let t = Transform::normalized(min, max).unwrap();
    let lo = t.apply(min);
    let hi = t.apply(max);
    assert_eq!(lo.num, 0);
    assert_eq!(hi.num, hi.den);
    assert_eq!(lo.unit, Unit::One);
    let offset = Transform::normalized(whole(-10), whole(30)).unwrap();
    let mid = offset.apply(whole(10));
    assert_eq!(mid.num * 2, mid.den);
}

#[test]
fn degenerate_range_disables_axis() {
    assert!(Transform::normalized(whole(5), whole(5)).is_none());
    assert!(Transform::turn(whole(0), whole(0)).is_none());
}

#[test]
fn ring_range_maps_to_turn() {
    let t = Transform::turn(whole(0), whole(71)).unwrap();
    let v = t.apply(whole(71));
    assert_eq!(v.num, v.den);
    assert_eq!(v.unit, Unit::Turn);
}

#[test]
fn tilt_is_degrees() {
    let t = Transform::degrees();
    let v = t.apply(whole(-45));
    assert_eq!(v.num, -45 * FRAC_ONE);
    assert_eq!(v.den, FRAC_ONE);
    assert_eq!(v.unit, Unit::Degree);
}

#[test]
fn usb_id_from_any_width() {
    assert_eq!(
        usb_id_from_property(&PropertyItems::Data16(vec![0x056a, 0x0392])),
        Some(UsbId { vid: 0x056a, pid: 0x0392 })
    );
    assert_eq!(usb_id_from_property(&PropertyItems::Data8(vec![1, 2, 3])), Some(UsbId { vid: 1, pid: 2 }));
    assert_eq!(
        usb_id_from_property(&PropertyItems::Data32(vec![0x28bd, 0x0905])),
        Some(UsbId { vid: 0x28bd, pid: 0x0905 })
    );
    assert_eq!(usb_id_from_property(&PropertyItems::Data32(vec![0x1_0000, 1])), None);
    assert_eq!(usb_id_from_property(&PropertyItems::Data16(vec![7])), None);
    assert_eq!(usb_id_from_property(&PropertyItems::Invalid), None);
}
