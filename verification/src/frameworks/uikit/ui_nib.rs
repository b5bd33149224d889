//! `UINib` and the loading of nib files: recognising the archive format and
//! the unarchiver that reads it, the messages that loading sends to the
//! decoded objects, the classes and placeholders that nib objects become,
//! and which connections are made. Decoding, class lookup and sending the
//! messages are the host's work; names are byte strings and objects guest
//! addresses (0 for nil).

use vstd::prelude::*;
use crate::bytes::{bytes_eq, copy_bytes};
use crate::literals::{
    ns_object, ns_object_bytes, fb_login_button, fb_login_button_bytes, ui_custom_object,
    ui_custom_object_bytes, ui_responder, ui_responder_bytes, ib_files_owner, ib_files_owner_bytes,
    ib_first_responder, ib_first_responder_bytes, nib_archive_magic, nib_archive_magic_bytes,
};

verus! {

/// `id`: an object's guest address; 0 is nil.
pub type Id = u32;

/// The two archive formats of nib files.
#[derive(Debug, PartialEq, Eq, Structural)]
pub enum NibFormat {
    /// A `NIBArchive`, read by the NIB archive decoder.
    NibArchive,
    /// A keyed archive, read by `NSKeyedUnarchiver`.
    KeyedArchive,
}

/// The format of a nib file's data: none where the file could not be read
/// or holds fewer than 10 bytes; a NIB archive where it starts with
/// `NIBArchive`; a keyed archive otherwise.
pub open spec fn spec_nib_format(data: Option<Seq<u8>>) -> Option<NibFormat> {
    match data {
        None => None,
        Some(d) => if d.len() < 10 {
            None
        } else if d.take(10) == nib_archive_magic() {
            Some(NibFormat::NibArchive)
        } else {
            Some(NibFormat::KeyedArchive)
        },
    }
}

/// How `load_nib_file` reads a file (`None`: it fails).
pub fn nib_format(data: Option<&[u8]>) -> (r: Option<NibFormat>)
    ensures
        r == spec_nib_format(
            match data {
                Some(d) => Some(d@),
                None => None,
            },
        ),
{
    let d = match data {
        None => return None,
        Some(d) => d,
    };
    if d.len() < 10 {
        return None;
    }
    let head = &d[0..10];
    if bytes_eq(head, nib_archive_magic_bytes().as_slice()) {
        Some(NibFormat::NibArchive)
    } else {
        Some(NibFormat::KeyedArchive)
    }
}

/// The start of `load_nib_file`: the unarchiver to create for the file's
/// data (the NIB archive decoder or `NSKeyedUnarchiver`, by format) and its
/// delegate, the `UINib` being loaded; `None` where loading fails.
pub fn nib_load_start(data: Option<&[u8]>, ui_nib: Id) -> (r: Option<(NibFormat, Id)>)
    ensures
        r == (match spec_nib_format(
            match data {
                Some(d) => Some(d@),
                None => None,
            },
        ) {
            Some(f) => Some((f, ui_nib)),
            None => None,
        }),
{
    match nib_format(data) {
        Some(f) => Some((f, ui_nib)),
        None => None,
    }
}

/// A message that loading a nib sends, in the order sent.
#[derive(Debug, PartialEq, Eq, Structural)]
pub enum NibMessage {
    /// Retain the array of top-level objects while the nib is wired up.
    Retain(Id),
    /// `connect` a connection.
    Connect(Id),
    /// `awakeFromNib` to a top-level object.
    AwakeFromNib(Id),
    /// Release the array of top-level objects again.
    Release(Id),
    /// `setHidden:false` to a visible window.
    Show(Id),
}

/// `connect` to each connection that is not nil, in order.
pub open spec fn connect_messages(conns: Seq<Id>) -> Seq<NibMessage>
    decreases conns.len(),
{
    if conns.len() == 0 {
        Seq::empty()
    } else {
        connect_messages(conns.drop_last()) + if conns.last() != 0 {
            seq![NibMessage::Connect(conns.last())]
        } else {
            Seq::empty()
        }
    }
}

/// `setHidden:false` to each visible window that is not nil, in order.
pub open spec fn show_messages(windows: Seq<Id>) -> Seq<NibMessage>
    decreases windows.len(),
{
    if windows.len() == 0 {
        Seq::empty()
    } else {
        show_messages(windows.drop_last()) + if windows.last() != 0 {
            seq![NibMessage::Show(windows.last())]
        } else {
            Seq::empty()
        }
    }
}

/// The number of objects an enumerator yields before it yields nil.
pub open spec fn before_nil(objects: Seq<Id>) -> int
    decreases objects.len(),
{
    if objects.len() == 0 || objects[0] == 0 {
        0
    } else {
        1 + before_nil(objects.drop_first())
    }
}

proof fn lemma_before_nil(objects: Seq<Id>)
    ensures
        0 <= before_nil(objects) <= objects.len(),
        before_nil(objects) < objects.len() ==> objects[before_nil(objects)] == 0,
        forall|i: int| 0 <= i < before_nil(objects) ==> objects[i] != 0,
    decreases objects.len(),
{
    if objects.len() > 0 && objects[0] != 0 {
        lemma_before_nil(objects.drop_first());
        assert forall|i: int| 0 <= i < before_nil(objects) implies objects[i] != 0 by {
            if i > 0 {
                assert(objects[i] == objects.drop_first()[i - 1]);
            }
        }
    }
}

/// `awakeFromNib` to each top-level object the enumerator yields.
pub open spec fn awake_messages(objects: Seq<Id>) -> Seq<NibMessage> {
    Seq::new(before_nil(objects) as nat, |i: int| NibMessage::AwakeFromNib(objects[i]))
}

/// The messages `load_nib_file` sends once the unarchiver has decoded the
/// top-level objects (the array and its elements; `None` for nil), the
/// connections and the visible windows: the array is retained, each
/// connection connected, each top-level object woken, the array released,
/// and each visible window shown.
pub open spec fn spec_nib_load_messages(
    objects: Option<(Id, Seq<Id>)>,
    connections: Option<Seq<Id>>,
    visible_windows: Option<Seq<Id>>,
) -> Seq<NibMessage> {
    let retain = match objects {
        Some((array, _)) => seq![NibMessage::Retain(array)],
        None => Seq::empty(),
    };
    let connects = match connections {
        Some(c) => connect_messages(c),
        None => Seq::empty(),
    };
    let awakes = match objects {
        Some((array, elements)) => awake_messages(elements) + seq![NibMessage::Release(array)],
        None => Seq::empty(),
    };
    let shows = match visible_windows {
        Some(w) => show_messages(w),
        None => Seq::empty(),
    };
    retain + connects + awakes + shows
}

/// Loading a nib retains its top-level objects array first, then connects
/// the connections, then sends `awakeFromNib` exactly once to each top-level
/// object before the first nil (to every object where none is nil), in
/// order, then releases the array, and shows the visible windows last: the
/// messages are those of the connections alone and of the windows alone,
/// with the retain, the wake-ups and the release between them.
pub proof fn lemma_nib_wakes_each_object(
    array: Id,
    objects: Seq<Id>,
    k: int,
    connections: Option<Seq<Id>>,
    visible_windows: Option<Seq<Id>>,
)
    requires
        0 <= k <= objects.len(),
        forall|j: int| 0 <= j < k ==> objects[j] != 0,
        k < objects.len() ==> objects[k] == 0,
    ensures
        spec_nib_load_messages(Some((array, objects)), connections, visible_windows) == seq![
            NibMessage::Retain(array),
        ] + spec_nib_load_messages(None, connections, None) + Seq::new(
            k as nat,
            |i: int| NibMessage::AwakeFromNib(objects[i]),
        ) + seq![NibMessage::Release(array)] + spec_nib_load_messages(None, None, visible_windows),
        spec_nib_load_messages(Some((array, objects)), None, None).len() == k + 2,
{
    lemma_before_nil(objects);
    let b = before_nil(objects);
    if b < k {
        assert(objects[b] == 0);
    }
    if b > k {
        assert(objects[k] != 0);
    }
    assert(b == k);
    let m = spec_nib_load_messages(Some((array, objects)), connections, visible_windows);
    assert(m =~= seq![NibMessage::Retain(array)] + spec_nib_load_messages(None, connections, None)
        + Seq::new(k as nat, |i: int| NibMessage::AwakeFromNib(objects[i])) + seq![
        NibMessage::Release(array),
    ] + spec_nib_load_messages(None, None, visible_windows));
    assert(spec_nib_load_messages(Some((array, objects)), None, None) =~= seq![
        NibMessage::Retain(array),
    ] + Seq::new(k as nat, |i: int| NibMessage::AwakeFromNib(objects[i])) + seq![
        NibMessage::Release(array),
    ]);
}

/// Each connection that is not nil is connected once, in order, and a nil
/// one is skipped; the same holds of showing the visible windows.
pub proof fn lemma_nib_connects_and_shows_in_order(ids: Seq<Id>, id: Id)
    ensures
        spec_nib_load_messages(None, Some(Seq::empty()), None) == Seq::<NibMessage>::empty(),
        spec_nib_load_messages(None, Some(ids.push(id)), None) == spec_nib_load_messages(
            None,
            Some(ids),
            None,
        ) + if id != 0 {
            seq![NibMessage::Connect(id)]
        } else {
            Seq::empty()
        },
        spec_nib_load_messages(None, None, Some(Seq::empty())) == Seq::<NibMessage>::empty(),
        spec_nib_load_messages(None, None, Some(ids.push(id))) == spec_nib_load_messages(
            None,
            None,
            Some(ids),
        ) + if id != 0 {
            seq![NibMessage::Show(id)]
        } else {
            Seq::empty()
        },
{
    assert(ids.push(id).drop_last() =~= ids);
    assert(spec_nib_load_messages(None, Some(Seq::empty()), None) =~= Seq::<NibMessage>::empty());
    assert(spec_nib_load_messages(None, None, Some(Seq::empty())) =~= Seq::<NibMessage>::empty());
    assert(spec_nib_load_messages(None, Some(ids.push(id)), None) =~= spec_nib_load_messages(
        None,
        Some(ids),
        None,
    ) + if id != 0 {
        seq![NibMessage::Connect(id)]
    } else {
        Seq::empty()
    });
    assert(spec_nib_load_messages(None, None, Some(ids.push(id))) =~= spec_nib_load_messages(
        None,
        None,
        Some(ids),
    ) + if id != 0 {
        seq![NibMessage::Show(id)]
    } else {
        Seq::empty()
    });
}

/// Appends a message for each element that is not nil.
fn push_non_nil(out: &mut Vec<NibMessage>, ids: &[Id], connect: bool)
    ensures
        final(out)@ == old(out)@ + if connect {
            connect_messages(ids@)
        } else {
            show_messages(ids@)
        },
{
    let ghost start = old(out)@;
    let mut i: usize = 0;
    while i < ids.len()
        invariant
            i <= ids.len(),
            out@ == start + if connect {
                connect_messages(ids@.take(i as int))
            } else {
                show_messages(ids@.take(i as int))
            },
        decreases ids.len() - i,
    {
        let ghost t = ids@.take(i + 1);
        assert(t.drop_last() =~= ids@.take(i as int));
        assert(t.last() == ids@[i as int]);
        if ids[i] != 0 {
            if connect {
                out.push(NibMessage::Connect(ids[i]));
            } else {
                out.push(NibMessage::Show(ids[i]));
            }
        }
        i = i + 1;
        assert(out@ =~= start + if connect {
            connect_messages(t)
        } else {
            show_messages(t)
        });
    }
    assert(ids@.take(i as int) =~= ids@);
}

/// `load_nib_file`'s messages after decoding (see `spec_nib_load_messages`).
pub fn nib_load_messages(
    objects: Option<(Id, &[Id])>,
    connections: Option<&[Id]>,
    visible_windows: Option<&[Id]>,
) -> (r: Vec<NibMessage>)
    ensures
        r@ == spec_nib_load_messages(
            match objects {
                Some((array, elements)) => Some((array, elements@)),
                None => None,
            },
            match connections {
                Some(c) => Some(c@),
                None => None,
            },
            match visible_windows {
                Some(w) => Some(w@),
                None => None,
            },
        ),
{
    let mut out: Vec<NibMessage> = Vec::new();
    if let Some((array, _)) = objects {
        out.push(NibMessage::Retain(array));
    }
    if let Some(c) = connections {
        push_non_nil(&mut out, c, true);
    }
    if let Some((array, elements)) = objects {
        proof {
            lemma_before_nil(elements@);
        }
        let ghost base = out@;
        let mut i: usize = 0;
        while i < elements.len() && elements[i] != 0
            invariant
                i <= elements.len(),
                i <= before_nil(elements@),
                0 <= before_nil(elements@) <= elements@.len(),
                before_nil(elements@) < elements@.len() ==> elements@[before_nil(elements@)] == 0,
                out@ == base + Seq::new(i as nat, |k: int| NibMessage::AwakeFromNib(elements@[k])),
            decreases elements.len() - i,
        {
            out.push(NibMessage::AwakeFromNib(elements[i]));
            i = i + 1;
            assert(out@ =~= base + Seq::new(i as nat, |k: int| NibMessage::AwakeFromNib(elements@[k])));
        }
        assert(i == before_nil(elements@));
        out.push(NibMessage::Release(array));
        assert(out@ =~= base + (awake_messages(elements@) + seq![NibMessage::Release(array)]));
    }
    if let Some(w) = visible_windows {
        push_non_nil(&mut out, w, false);
    }
    proof {
        let o = match objects {
            Some((array, elements)) => Some((array, elements@)),
            None => None::<(Id, Seq<Id>)>,
        };
        let c = match connections {
            Some(c) => Some(c@),
            None => None::<Seq<Id>>,
        };
        let w = match visible_windows {
            Some(w) => Some(w@),
            None => None::<Seq<Id>>,
        };
        assert(out@ =~= spec_nib_load_messages(o, c, w));
    }
    out
}

/// What a `UIProxyObject` placeholder becomes.
#[derive(Debug, PartialEq, Eq, Structural)]
pub enum ProxyReplacement {
    /// The nib's file owner.
    FileOwner(Id),
    /// A fresh `NSObject` (the file owner is missing).
    DummyObject,
    /// A fresh `UIResponder` in place of the first responder (the proxy is
    /// released).
    DummyResponder,
    /// The proxy itself.
    Unreplaced,
}

/// A `UIProxyObject`'s replacement, given its identifier (`None` for nil)
/// and the file owner of the decoder's delegate nib (`None` where the
/// decoder has no delegate).
pub open spec fn spec_proxy_replacement(identifier: Option<Seq<u8>>, owner: Option<Id>) -> ProxyReplacement {
    match identifier {
        Some(id) => if id == ib_files_owner() {
            match owner {
                Some(o) => if o != 0 {
                    ProxyReplacement::FileOwner(o)
                } else {
                    ProxyReplacement::DummyObject
                },
                None => ProxyReplacement::DummyObject,
            }
        } else if id == ib_first_responder() {
            ProxyReplacement::DummyResponder
        } else {
            ProxyReplacement::Unreplaced
        },
        None => ProxyReplacement::Unreplaced,
    }
}

/// `UIProxyObject initWithCoder:`'s decision (see `spec_proxy_replacement`).
pub fn proxy_replacement(identifier: Option<&[u8]>, owner: Option<Id>) -> (r: ProxyReplacement)
    ensures
        r == spec_proxy_replacement(
            match identifier {
                Some(i) => Some(i@),
                None => None,
            },
            owner,
        ),
{
    let id = match identifier {
        None => return ProxyReplacement::Unreplaced,
        Some(i) => i,
    };
    if bytes_eq(id, ib_files_owner_bytes().as_slice()) {
        match owner {
            Some(o) => if o != 0 {
                ProxyReplacement::FileOwner(o)
            } else {
                ProxyReplacement::DummyObject
            },
            None => ProxyReplacement::DummyObject,
        }
    } else if bytes_eq(id, ib_first_responder_bytes().as_slice()) {
        ProxyReplacement::DummyResponder
    } else {
        ProxyReplacement::Unreplaced
    }
}

/// A class name decoded by `UIClassSwapper`, `NSObject` where it is nil.
pub fn class_name_or_default(name: Option<&[u8]>) -> (r: Vec<u8>)
    ensures
        r@ == (match name {
            Some(n) => n@,
            None => ns_object(),
        }),
{
    match name {
        Some(n) => copy_bytes(n),
        None => ns_object_bytes(),
    }
}

/// The class that a `UIClassSwapper` instantiates.
#[derive(Debug, PartialEq, Eq, Structural)]
pub enum SwapperClass {
    /// The custom class named.
    Named,
    /// The original class it stands in for.
    Original,
    /// `UIView`, for a class that cannot be used.
    UIView,
    /// `NSObject`, where even `UIView` is missing.
    NSObject,
}

/// The class chosen: the named class where it exists, else the original
/// class where it exists; `UIView` where neither exists or the named class
/// is one known to misbehave (`FBLoginButton`); `NSObject` where `UIView`
/// is missing too.
pub open spec fn spec_swapper_class(name: Seq<u8>, name_found: bool, original_found: bool, ui_view_found: bool) -> SwapperClass {
    let first: Option<SwapperClass> = if name_found {
        Some(SwapperClass::Named)
    } else if original_found {
        Some(SwapperClass::Original)
    } else {
        None
    };
    let second: Option<SwapperClass> = if first is None || name == fb_login_button() {
        if ui_view_found {
            Some(SwapperClass::UIView)
        } else {
            None
        }
    } else {
        first
    };
    match second {
        Some(c) => c,
        None => SwapperClass::NSObject,
    }
}

/// `UIClassSwapper initWithCoder:`'s choice of class (see
/// `spec_swapper_class`), given which lookups found a class.
pub fn swapper_class(name: &[u8], name_found: bool, original_found: bool, ui_view_found: bool) -> (r:
    SwapperClass)
    ensures
        r == spec_swapper_class(name@, name_found, original_found, ui_view_found),
{
    let first = if name_found {
        Some(SwapperClass::Named)
    } else if original_found {
        Some(SwapperClass::Original)
    } else {
        None
    };
    let second = if first.is_none() || bytes_eq(name, fb_login_button_bytes().as_slice()) {
        if ui_view_found {
            Some(SwapperClass::UIView)
        } else {
            None
        }
    } else {
        first
    };
    match second {
        Some(c) => c,
        None => SwapperClass::NSObject,
    }
}

/// Whether a `UIClassSwapper` initialises its object with plain `init`:
/// for the placeholder classes `UICustomObject` and `UIResponder`, which
/// have no meaningful `initWithCoder:`.
pub fn swapper_uses_plain_init(original: &[u8]) -> (r: bool)
    ensures
        r == (original@ == ui_custom_object() || original@ == ui_responder()),
{
    bytes_eq(original, ui_custom_object_bytes().as_slice()) || bytes_eq(
        original,
        ui_responder_bytes().as_slice(),
    )
}

/// `UIRuntimeOutletConnection connect`: the outlet is set (`setValue:forKey:`
/// on the source) unless the source, destination or label is nil, or the
/// source is a bare `NSObject` or `UIResponder` placeholder.
pub fn outlet_connects(source: Id, destination: Id, label: Id, source_is_placeholder: bool) -> (r:
    bool)
    ensures
        r == (source != 0 && destination != 0 && label != 0 && !source_is_placeholder),
{
    source != 0 && destination != 0 && label != 0 && !source_is_placeholder
}

/// `UIRuntimeEventConnection connect`: the target-action pair is added
/// unless the source, destination or label is nil, or no selector is named
/// by the label.
pub fn event_connects(source: Id, destination: Id, label: Id, selector_exists: bool) -> (r: bool)
    ensures
        r == (source != 0 && destination != 0 && label != 0 && selector_exists),
{
    source != 0 && destination != 0 && label != 0 && selector_exists
}

/// `UINib nibWithNibName:bundle:`: the bundle used, the main bundle where
/// none is given (only the main bundle is supported).
pub fn nib_bundle(bundle: Id, main_bundle: Id) -> (r: Id)
    requires
        bundle == 0 || bundle == main_bundle,
    ensures
        r == main_bundle,
{
    main_bundle
}

/// The placeholders a nib's file owner proxy can stand for: a nib whose
/// owner is set gives that owner to every `IBFilesOwner` proxy it decodes.
pub proof fn lemma_files_owner_proxy(owner: Id)
    requires
        owner != 0,
    ensures
        spec_proxy_replacement(Some(ib_files_owner()), Some(owner)) == ProxyReplacement::FileOwner(
            owner,
        ),
{
}

/// A proxy becomes the file owner only for `IBFilesOwner` with a non-nil
/// owner, and then exactly that owner; only `IBFirstResponder` becomes a
/// fresh responder; a proxy with any other identifier stays itself.
pub proof fn lemma_proxy_replacement_cases(identifier: Option<Seq<u8>>, owner: Option<Id>)
    ensures
        ({
            let r = spec_proxy_replacement(identifier, owner);
            &&& (r matches ProxyReplacement::FileOwner(o) ==> identifier == Some(ib_files_owner())
                && owner == Some(o) && o != 0)
            &&& (r == ProxyReplacement::DummyResponder <==> identifier == Some(ib_first_responder()))
            &&& (identifier == Some(ib_files_owner()) ==> r != ProxyReplacement::Unreplaced)
            &&& ((identifier is None || (identifier != Some(ib_files_owner()) && identifier != Some(
                ib_first_responder(),
            ))) ==> r == ProxyReplacement::Unreplaced)
        }),
{
    assert(ib_files_owner() != ib_first_responder()) by {
        assert(ib_files_owner().len() != ib_first_responder().len());
    }
}

/// A class swapper uses the named class whenever it exists (unless it is
/// `FBLoginButton`), else the original class when that exists; it falls
/// back to `UIView` only when neither can be used, and to `NSObject` only
/// when `UIView` is missing too.
pub proof fn lemma_swapper_class_precedence(name: Seq<u8>, name_found: bool, original_found: bool, ui_view_found: bool)
    ensures
        ({
            let c = spec_swapper_class(name, name_found, original_found, ui_view_found);
            &&& name != fb_login_button() && name_found ==> c == SwapperClass::Named
            &&& name != fb_login_button() && !name_found && original_found ==> c
                == SwapperClass::Original
            &&& c == SwapperClass::UIView ==> ui_view_found && (name == fb_login_button() || (
            !name_found && !original_found))
            &&& c == SwapperClass::NSObject ==> !ui_view_found
            &&& name == fb_login_button() ==> c != SwapperClass::Named && c != SwapperClass::Original
        }),
{
}

/// A nib file is read as a NIB archive exactly when it starts with the ten
/// bytes `NIBArchive`, as a keyed archive when it has at least ten bytes
/// and starts otherwise, and not at all when it is missing or shorter.
pub proof fn lemma_nib_format_by_magic(data: Seq<u8>)
    ensures
        data.len() < 10 ==> spec_nib_format(Some(data)) is None,
        spec_nib_format(None) is None,
        data.len() >= 10 ==> (spec_nib_format(Some(data)) == Some(NibFormat::NibArchive) <==> data.take(
            10,
        ) == seq![0x4eu8, 0x49, 0x42, 0x41, 0x72, 0x63, 0x68, 0x69, 0x76, 0x65]),
        data.len() >= 10 ==> spec_nib_format(Some(data)) is Some,
{
    assert(nib_archive_magic() =~= seq![0x4eu8, 0x49, 0x42, 0x41, 0x72, 0x63, 0x68, 0x69, 0x76, 0x65]);
}

} // verus!
