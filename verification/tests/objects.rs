use lib::frameworks::core_graphics::cg_context::{
    CGBitmapContextData, CGContextClearRect, CGContextDrawImage, CGContextFillRect,
    CGContextHostObject, CGContextRelease, CGContextRetain, CGContextSubclass, ColorBits,
    DrawAction, TransformBits,
};
use lib::frameworks::foundation::ns_object::{
    instance_description, kvc_names, kvc_set_action, main_thread_dispatch,
    method_signature_argument_count, starts_with, takes_argument, to_hex, value_for_key_is_name,
    CancelledPerforms, KvcSetAction, MainThreadDispatch,
};
use lib::frameworks::uikit::ui_nib::{
    class_name_or_default, event_connects, nib_bundle, nib_format, nib_load_messages,
    nib_load_start, outlet_connects, proxy_replacement, swapper_class, swapper_uses_plain_init,
    NibFormat, NibMessage, ProxyReplacement, SwapperClass,
};

const ONE: u32 = 0x3f80_0000;

fn identity() -> TransformBits {
    TransformBits { a: ONE, b: 0, c: 0, d: ONE, tx: 0, ty: 0 }
}

fn color(v: f32) -> ColorBits {
    ColorBits { red: v.to_bits(), green: v.to_bits(), blue: v.to_bits(), alpha: 1.0f32.to_bits() }
}

fn context(owned: bool) -> CGContextHostObject {
    CGContextHostObject::new(
        CGContextSubclass::CGBitmapContext(CGBitmapContextData { data: 0x8000, data_is_owned: owned }),
        color(0.0),
        color(0.0),
        identity(),
    )
}

#[test]
fn save_and_restore_graphics_state() {
    let mut c = context(true);
    c.CGContextSetRGBFillColor(color(0.5));
    c.CGContextSaveGState();
    assert_eq!(c.state_stack.len(), 1);
    c.CGContextSetRGBFillColor(color(1.0));
    c.CGContextSetRGBStrokeColor(color(0.25));
    let scaled = TransformBits { a: 2.0f32.to_bits(), d: 2.0f32.to_bits(), ..identity() };
    c.CGContextConcatCTM(scaled);
    assert_eq!(c.CGContextGetCTM(), scaled);
    c.CGContextRestoreGState();
    assert_eq!(c.rgb_fill_color, color(0.5));
    assert_eq!(c.rgb_stroke_color, color(0.0));
    assert_eq!(c.CGContextGetCTM(), identity());
    assert!(c.state_stack.is_empty());
    c.CGContextRestoreGState();
    assert_eq!(c.rgb_fill_color, color(0.5));
}

#[test]
fn gray_fill_color() {
    let mut c = context(false);
    c.CGContextSetGrayFillColor(0.5f32.to_bits(), 0.75f32.to_bits());
    assert_eq!(
        c.rgb_fill_color,
        ColorBits {
            red: 0.5f32.to_bits(),
            green: 0.5f32.to_bits(),
            blue: 0.5f32.to_bits(),
            alpha: 0.75f32.to_bits(),
        }
    );
}

#[test]
fn dealloc_frees_owned_bitmap() {
    assert_eq!(context(true).dealloc(), Some(0x8000));
    assert_eq!(context(false).dealloc(), None);
}

#[test]
fn clip_to_whole_context() {
    let c = context(true);
    assert!(c.transform.is_identity());
    c.CGContextClipToRect(true);
    let negative_zero = TransformBits { tx: 0x8000_0000, ..identity() };
    assert!(negative_zero.is_identity());
    let scaled = TransformBits { a: 2.0f32.to_bits(), ..identity() };
    assert!(!scaled.is_identity());
}

#[test]
fn retain_release_and_drawing() {
    assert_eq!(CGContextRetain(0), (0, false));
    assert_eq!(CGContextRetain(0x40), (0x40, true));
    assert!(!CGContextRelease(0));
    assert!(CGContextRelease(0x40));
    assert_eq!(CGContextFillRect(0), DrawAction::Skip);
    assert_eq!(CGContextFillRect(0x40), DrawAction::Fill);
    assert_eq!(CGContextClearRect(0x40), DrawAction::Clear);
    assert_eq!(CGContextDrawImage(0), DrawAction::Skip);
    assert_eq!(CGContextDrawImage(0x40), DrawAction::DrawImage);
}

#[test]
fn selector_helpers() {
    assert!(starts_with(b"com.gameloft.HOS2.x", b"com.gameloft.HOS2"));
    assert!(!starts_with(b"com.ea", b"com.ea.simcity"));
    assert!(starts_with(b"abc", b""));
    assert_eq!(method_signature_argument_count(b"setValue:forKey:"), 4);
    assert_eq!(method_signature_argument_count(b"description"), 2);
    assert!(takes_argument(b"setFoo:"));
    assert!(!takes_argument(b"foo"));
    assert!(!takes_argument(b""));
}

#[test]
fn kvc_accessor_names() {
    let n = kvc_names(b"name");
    assert_eq!(n.setter, b"setName:".to_vec());
    assert_eq!(n.private_setter, b"_setName:".to_vec());
    assert_eq!(
        n.ivars,
        vec![b"_name".to_vec(), b"_isName".to_vec(), b"name".to_vec(), b"isName".to_vec()]
    );
    let n = kvc_names(b"URL");
    assert_eq!(n.setter, b"setURL:".to_vec());
    let n = kvc_names(b"1st");
    assert_eq!(n.setter, b"set1st:".to_vec());
    assert_eq!(value_for_key_is_name(b"hidden"), b"isHidden".to_vec());
}

#[test]
fn kvc_set_decisions() {
    assert_eq!(kvc_set_action(None, false, true, true, true, Some(0)), KvcSetAction::Ignore);
    assert_eq!(kvc_set_action(Some(b""), false, true, true, true, Some(0)), KvcSetAction::UndefinedKey);
    assert_eq!(kvc_set_action(Some("ключ".as_bytes()), false, true, true, true, Some(0)), KvcSetAction::UndefinedKey);
    assert_eq!(kvc_set_action(Some(b"k"), true, true, false, false, None), KvcSetAction::CallSetter);
    assert_eq!(kvc_set_action(Some(b"k"), true, false, true, true, Some(1)), KvcSetAction::SetNilValue);
    assert_eq!(kvc_set_action(Some(b"k"), false, true, true, true, Some(1)), KvcSetAction::CallSetter);
    assert_eq!(kvc_set_action(Some(b"k"), false, false, true, true, Some(1)), KvcSetAction::CallPrivateSetter);
    assert_eq!(kvc_set_action(Some(b"k"), false, false, false, true, Some(2)), KvcSetAction::StoreIvar(2));
    assert_eq!(kvc_set_action(Some(b"k"), false, false, false, false, Some(2)), KvcSetAction::UndefinedKey);
    assert_eq!(kvc_set_action(Some(b"k"), false, false, false, true, None), KvcSetAction::UndefinedKey);
}

#[test]
fn cancelled_performs() {
    let mut c = CancelledPerforms::new();
    assert!(!c.is_cancelled(1, b"tick"));
    c.cancel(1, Some(b"tick"));
    c.cancel(1, Some(b"tick"));
    assert!(!c.is_cancelled(1, b"tock"));
    assert!(!c.is_cancelled(2, b"tick"));
    assert!(c.is_cancelled(1, b"tick"));
    assert!(c.is_cancelled(1, b"tick"));
    assert!(!c.is_cancelled(1, b"tick"));
    c.cancel(2, None);
    assert!(c.is_cancelled(2, b"anything"));
    assert!(c.is_cancelled(2, b"anything"));
    assert!(!c.is_cancelled(3, b"anything"));
}

#[test]
fn main_thread_dispatch_decisions() {
    assert_eq!(main_thread_dispatch(b"play", true, b"x", false), MainThreadDispatch::Ignore);
    assert_eq!(main_thread_dispatch(b"loadMovie:", false, b"x", true), MainThreadDispatch::Ignore);
    assert_eq!(
        main_thread_dispatch(b"update:", true, b"x", false),
        MainThreadDispatch::SendNow { with_argument: true }
    );
    assert_eq!(
        main_thread_dispatch(b"update", true, b"x", false),
        MainThreadDispatch::SendNow { with_argument: false }
    );
    assert_eq!(main_thread_dispatch(b"update:", false, b"x", true), MainThreadDispatch::Schedule);
    assert_eq!(
        main_thread_dispatch(b"initTextInput:", false, b"com.gameloft.FerrariGT", true),
        MainThreadDispatch::SendNow { with_argument: true }
    );
    assert_eq!(
        main_thread_dispatch(b"initTextInput:", false, b"com.gameloft.FerrariGT", false),
        MainThreadDispatch::Schedule
    );
    assert_eq!(
        main_thread_dispatch(b"sendGameInfo", false, b"com.gameloft.HOS2", true),
        MainThreadDispatch::SendNow { with_argument: false }
    );
    assert_eq!(
        main_thread_dispatch(b"setStatusBar:", false, b"com.gameloft.HOS2.full", true),
        MainThreadDispatch::SendNow { with_argument: true }
    );
    assert_eq!(
        main_thread_dispatch(b"sendGameInfo", false, b"com.gameloft.FerrariGT", true),
        MainThreadDispatch::Schedule
    );
}

#[test]
fn descriptions() {
    assert_eq!(to_hex(0), b"0".to_vec());
    assert_eq!(to_hex(0x1a2b), b"1a2b".to_vec());
    assert_eq!(to_hex(u32::MAX), b"ffffffff".to_vec());
    assert_eq!(instance_description(b"Foo", 0x1a2b), b"<Foo: 0x1a2b>".to_vec());
    assert_eq!(instance_description(b"NSObject", 0), b"<NSObject: 0x0>".to_vec());
}

#[test]
fn nib_formats() {
    assert_eq!(nib_format(None), None);
    assert_eq!(nib_format(Some(b"NIBArchiv")), None);
    assert_eq!(nib_format(Some(b"NIBArchive\x01\x00")), Some(NibFormat::NibArchive));
    assert_eq!(nib_format(Some(b"bplist00\xd4\x01\x02")), Some(NibFormat::KeyedArchive));
}

#[test]
fn proxy_replacements() {
    assert_eq!(proxy_replacement(Some(b"IBFilesOwner"), Some(0x500)), ProxyReplacement::FileOwner(0x500));
    assert_eq!(proxy_replacement(Some(b"IBFilesOwner"), Some(0)), ProxyReplacement::DummyObject);
    assert_eq!(proxy_replacement(Some(b"IBFilesOwner"), None), ProxyReplacement::DummyObject);
    assert_eq!(proxy_replacement(Some(b"IBFirstResponder"), Some(0x500)), ProxyReplacement::DummyResponder);
    assert_eq!(proxy_replacement(Some(b"Other"), Some(0x500)), ProxyReplacement::Unreplaced);
    assert_eq!(proxy_replacement(None, Some(0x500)), ProxyReplacement::Unreplaced);
}

#[test]
fn class_swapper_choices() {
    assert_eq!(class_name_or_default(None), b"NSObject".to_vec());
    assert_eq!(class_name_or_default(Some(b"MyView")), b"MyView".to_vec());
    assert_eq!(swapper_class(b"MyView", true, true, true), SwapperClass::Named);
    assert_eq!(swapper_class(b"MyView", false, true, true), SwapperClass::Original);
    assert_eq!(swapper_class(b"MyView", false, false, true), SwapperClass::UIView);
    assert_eq!(swapper_class(b"MyView", false, false, false), SwapperClass::NSObject);
    assert_eq!(swapper_class(b"FBLoginButton", true, true, true), SwapperClass::UIView);
    assert_eq!(swapper_class(b"FBLoginButton", true, true, false), SwapperClass::NSObject);
    assert!(swapper_uses_plain_init(b"UICustomObject"));
    assert!(swapper_uses_plain_init(b"UIResponder"));
    assert!(!swapper_uses_plain_init(b"UIView"));
}

#[test]
fn connections() {
    assert!(outlet_connects(1, 2, 3, false));
    assert!(!outlet_connects(1, 2, 3, true));
    assert!(!outlet_connects(0, 2, 3, false));
    assert!(!outlet_connects(1, 0, 3, false));
    assert!(!outlet_connects(1, 2, 0, false));
    assert!(event_connects(1, 2, 3, true));
    assert!(!event_connects(1, 2, 3, false));
    assert!(!event_connects(1, 2, 0, true));
    assert_eq!(nib_bundle(0, 0x77), 0x77);
    assert_eq!(nib_bundle(0x77, 0x77), 0x77);
}

#[test]
fn hex_digits_read_back() {
    for n in [0u32, 9, 10, 15, 16, 255, 0x1a2b, 0xdead_beef, u32::MAX] {
        let text = String::from_utf8(to_hex(n)).unwrap();
        assert_eq!(u32::from_str_radix(&text, 16).unwrap(), n);
    }
}

#[test]
fn nib_load_start_picks_unarchiver_and_delegate() {
    assert_eq!(nib_load_start(None, 0x10), None);
    assert_eq!(nib_load_start(Some(b"short"), 0x10), None);
    assert_eq!(nib_load_start(Some(b"NIBArchive...."), 0x10), Some((NibFormat::NibArchive, 0x10)));
    assert_eq!(nib_load_start(Some(b"bplist00......"), 0x10), Some((NibFormat::KeyedArchive, 0x10)));
}

#[test]
fn nib_load_message_order() {
    let objects = [0x100, 0x104, 0, 0x108];
    let conns = [0x200, 0, 0x204];
    let windows = [0, 0x300];
    assert_eq!(
        nib_load_messages(Some((0x50, &objects[..])), Some(&conns[..]), Some(&windows[..])),
        vec![
            NibMessage::Retain(0x50),
            NibMessage::Connect(0x200),
            NibMessage::Connect(0x204),
            NibMessage::AwakeFromNib(0x100),
            NibMessage::AwakeFromNib(0x104),
            NibMessage::Release(0x50),
            NibMessage::Show(0x300),
        ]
    );
    assert_eq!(nib_load_messages(None, None, None), vec![]);
    assert_eq!(nib_load_messages(None, Some(&[0x9][..]), None), vec![NibMessage::Connect(0x9)]);
    assert_eq!(nib_load_messages(Some((0x50, &[][..])), None, None), vec![NibMessage::Retain(0x50), NibMessage::Release(0x50)]);
}
