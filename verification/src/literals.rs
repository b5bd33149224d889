//! Byte strings of the selector, class and bundle names that the host-side
//! logic compares against.

use vstd::prelude::*;

verus! {

/// The bundle identifier prefix of Ferrari GT.
pub open spec fn ferrari_bundle() -> Seq<u8> {
    seq![0x63u8, 0x6f, 0x6d, 0x2e, 0x67, 0x61, 0x6d, 0x65, 0x6c, 0x6f, 0x66, 0x74, 0x2e, 0x46, 0x65, 0x72, 0x72, 0x61, 0x72, 0x69]
}

/// The bundle identifier prefix of Ferrari GT.
pub fn ferrari_bundle_bytes() -> (r: Vec<u8>)
    ensures
        r@ == ferrari_bundle(),
{
    let r = vec![0x63u8, 0x6f, 0x6d, 0x2e, 0x67, 0x61, 0x6d, 0x65, 0x6c, 0x6f, 0x66, 0x74, 0x2e, 0x46, 0x65, 0x72, 0x72, 0x61, 0x72, 0x69];
    assert(r@ =~= ferrari_bundle());
    r
}

/// The bundle identifier prefix of Hero of Sparta 2.
pub open spec fn hos2_bundle() -> Seq<u8> {
    seq![0x63u8, 0x6f, 0x6d, 0x2e, 0x67, 0x61, 0x6d, 0x65, 0x6c, 0x6f, 0x66, 0x74, 0x2e, 0x48, 0x4f, 0x53, 0x32]
}

/// The bundle identifier prefix of Hero of Sparta 2.
pub fn hos2_bundle_bytes() -> (r: Vec<u8>)
    ensures
        r@ == hos2_bundle(),
{
    let r = vec![0x63u8, 0x6f, 0x6d, 0x2e, 0x67, 0x61, 0x6d, 0x65, 0x6c, 0x6f, 0x66, 0x74, 0x2e, 0x48, 0x4f, 0x53, 0x32];
    assert(r@ =~= hos2_bundle());
    r
}

/// The bundle identifier prefix of SimCity.
pub open spec fn simcity_bundle() -> Seq<u8> {
    seq![0x63u8, 0x6f, 0x6d, 0x2e, 0x65, 0x61, 0x2e, 0x73, 0x69, 0x6d, 0x63, 0x69, 0x74, 0x79]
}

/// The bundle identifier prefix of SimCity.
pub fn simcity_bundle_bytes() -> (r: Vec<u8>)
    ensures
        r@ == simcity_bundle(),
{
    let r = vec![0x63u8, 0x6f, 0x6d, 0x2e, 0x65, 0x61, 0x2e, 0x73, 0x69, 0x6d, 0x63, 0x69, 0x74, 0x79];
    assert(r@ =~= simcity_bundle());
    r
}

/// `initTextInput:`
pub open spec fn init_text_input() -> Seq<u8> {
    seq![0x69u8, 0x6e, 0x69, 0x74, 0x54, 0x65, 0x78, 0x74, 0x49, 0x6e, 0x70, 0x75, 0x74, 0x3a]
}

/// `initTextInput:`
pub fn init_text_input_bytes() -> (r: Vec<u8>)
    ensures
        r@ == init_text_input(),
{
    let r = vec![0x69u8, 0x6e, 0x69, 0x74, 0x54, 0x65, 0x78, 0x74, 0x49, 0x6e, 0x70, 0x75, 0x74, 0x3a];
    assert(r@ =~= init_text_input());
    r
}

/// `removeTextField:`
pub open spec fn remove_text_field() -> Seq<u8> {
    seq![0x72u8, 0x65, 0x6d, 0x6f, 0x76, 0x65, 0x54, 0x65, 0x78, 0x74, 0x46, 0x69, 0x65, 0x6c, 0x64, 0x3a]
}

/// `removeTextField:`
pub fn remove_text_field_bytes() -> (r: Vec<u8>)
    ensures
        r@ == remove_text_field(),
{
    let r = vec![0x72u8, 0x65, 0x6d, 0x6f, 0x76, 0x65, 0x54, 0x65, 0x78, 0x74, 0x46, 0x69, 0x65, 0x6c, 0x64, 0x3a];
    assert(r@ =~= remove_text_field());
    r
}

/// `sendGameInfo`
pub open spec fn send_game_info() -> Seq<u8> {
    seq![0x73u8, 0x65, 0x6e, 0x64, 0x47, 0x61, 0x6d, 0x65, 0x49, 0x6e, 0x66, 0x6f]
}

/// `sendGameInfo`
pub fn send_game_info_bytes() -> (r: Vec<u8>)
    ensures
        r@ == send_game_info(),
{
    let r = vec![0x73u8, 0x65, 0x6e, 0x64, 0x47, 0x61, 0x6d, 0x65, 0x49, 0x6e, 0x66, 0x6f];
    assert(r@ =~= send_game_info());
    r
}

/// `setStatusBar:`
pub open spec fn set_status_bar() -> Seq<u8> {
    seq![0x73u8, 0x65, 0x74, 0x53, 0x74, 0x61, 0x74, 0x75, 0x73, 0x42, 0x61, 0x72, 0x3a]
}

/// `setStatusBar:`
pub fn set_status_bar_bytes() -> (r: Vec<u8>)
    ensures
        r@ == set_status_bar(),
{
    let r = vec![0x73u8, 0x65, 0x74, 0x53, 0x74, 0x61, 0x74, 0x75, 0x73, 0x42, 0x61, 0x72, 0x3a];
    assert(r@ =~= set_status_bar());
    r
}

/// `NSObject`
pub open spec fn ns_object() -> Seq<u8> {
    seq![0x4eu8, 0x53, 0x4f, 0x62, 0x6a, 0x65, 0x63, 0x74]
}

/// `NSObject`
pub fn ns_object_bytes() -> (r: Vec<u8>)
    ensures
        r@ == ns_object(),
{
    let r = vec![0x4eu8, 0x53, 0x4f, 0x62, 0x6a, 0x65, 0x63, 0x74];
    assert(r@ =~= ns_object());
    r
}

/// `UIView`
pub open spec fn ui_view() -> Seq<u8> {
    seq![0x55u8, 0x49, 0x56, 0x69, 0x65, 0x77]
}

/// `UIView`
pub fn ui_view_bytes() -> (r: Vec<u8>)
    ensures
        r@ == ui_view(),
{
    let r = vec![0x55u8, 0x49, 0x56, 0x69, 0x65, 0x77];
    assert(r@ =~= ui_view());
    r
}

/// `FBLoginButton`
pub open spec fn fb_login_button() -> Seq<u8> {
    seq![0x46u8, 0x42, 0x4c, 0x6f, 0x67, 0x69, 0x6e, 0x42, 0x75, 0x74, 0x74, 0x6f, 0x6e]
}

/// `FBLoginButton`
pub fn fb_login_button_bytes() -> (r: Vec<u8>)
    ensures
        r@ == fb_login_button(),
{
    let r = vec![0x46u8, 0x42, 0x4c, 0x6f, 0x67, 0x69, 0x6e, 0x42, 0x75, 0x74, 0x74, 0x6f, 0x6e];
    assert(r@ =~= fb_login_button());
    r
}

/// `UICustomObject`
pub open spec fn ui_custom_object() -> Seq<u8> {
    seq![0x55u8, 0x49, 0x43, 0x75, 0x73, 0x74, 0x6f, 0x6d, 0x4f, 0x62, 0x6a, 0x65, 0x63, 0x74]
}

/// `UICustomObject`
pub fn ui_custom_object_bytes() -> (r: Vec<u8>)
    ensures
        r@ == ui_custom_object(),
{
    let r = vec![0x55u8, 0x49, 0x43, 0x75, 0x73, 0x74, 0x6f, 0x6d, 0x4f, 0x62, 0x6a, 0x65, 0x63, 0x74];
    assert(r@ =~= ui_custom_object());
    r
}

/// `UIResponder`
pub open spec fn ui_responder() -> Seq<u8> {
    seq![0x55u8, 0x49, 0x52, 0x65, 0x73, 0x70, 0x6f, 0x6e, 0x64, 0x65, 0x72]
}

/// `UIResponder`
pub fn ui_responder_bytes() -> (r: Vec<u8>)
    ensures
        r@ == ui_responder(),
{
    let r = vec![0x55u8, 0x49, 0x52, 0x65, 0x73, 0x70, 0x6f, 0x6e, 0x64, 0x65, 0x72];
    assert(r@ =~= ui_responder());
    r
}

/// `IBFilesOwner`
pub open spec fn ib_files_owner() -> Seq<u8> {
    seq![0x49u8, 0x42, 0x46, 0x69, 0x6c, 0x65, 0x73, 0x4f, 0x77, 0x6e, 0x65, 0x72]
}

/// `IBFilesOwner`
pub fn ib_files_owner_bytes() -> (r: Vec<u8>)
    ensures
        r@ == ib_files_owner(),
{
    let r = vec![0x49u8, 0x42, 0x46, 0x69, 0x6c, 0x65, 0x73, 0x4f, 0x77, 0x6e, 0x65, 0x72];
    assert(r@ =~= ib_files_owner());
    r
}

/// `IBFirstResponder`
pub open spec fn ib_first_responder() -> Seq<u8> {
    seq![0x49u8, 0x42, 0x46, 0x69, 0x72, 0x73, 0x74, 0x52, 0x65, 0x73, 0x70, 0x6f, 0x6e, 0x64, 0x65, 0x72]
}

/// `IBFirstResponder`
pub fn ib_first_responder_bytes() -> (r: Vec<u8>)
    ensures
        r@ == ib_first_responder(),
{
    let r = vec![0x49u8, 0x42, 0x46, 0x69, 0x72, 0x73, 0x74, 0x52, 0x65, 0x73, 0x70, 0x6f, 0x6e, 0x64, 0x65, 0x72];
    assert(r@ =~= ib_first_responder());
    r
}

/// `NIBArchive`, the magic number of a NIB archive.
pub open spec fn nib_archive_magic() -> Seq<u8> {
    seq![0x4eu8, 0x49, 0x42, 0x41, 0x72, 0x63, 0x68, 0x69, 0x76, 0x65]
}

/// `NIBArchive`, the magic number of a NIB archive.
pub fn nib_archive_magic_bytes() -> (r: Vec<u8>)
    ensures
        r@ == nib_archive_magic(),
{
    let r = vec![0x4eu8, 0x49, 0x42, 0x41, 0x72, 0x63, 0x68, 0x69, 0x76, 0x65];
    assert(r@ =~= nib_archive_magic());
    r
}

/// `play`
pub open spec fn play() -> Seq<u8> {
    seq![0x70u8, 0x6c, 0x61, 0x79]
}

/// `play`
pub fn play_bytes() -> (r: Vec<u8>)
    ensures
        r@ == play(),
{
    let r = vec![0x70u8, 0x6c, 0x61, 0x79];
    assert(r@ =~= play());
    r
}

/// `startMovie:`
pub open spec fn start_movie() -> Seq<u8> {
    seq![0x73u8, 0x74, 0x61, 0x72, 0x74, 0x4d, 0x6f, 0x76, 0x69, 0x65, 0x3a]
}

/// `startMovie:`
pub fn start_movie_bytes() -> (r: Vec<u8>)
    ensures
        r@ == start_movie(),
{
    let r = vec![0x73u8, 0x74, 0x61, 0x72, 0x74, 0x4d, 0x6f, 0x76, 0x69, 0x65, 0x3a];
    assert(r@ =~= start_movie());
    r
}

/// `stopMovie:`
pub open spec fn stop_movie_arg() -> Seq<u8> {
    seq![0x73u8, 0x74, 0x6f, 0x70, 0x4d, 0x6f, 0x76, 0x69, 0x65, 0x3a]
}

/// `stopMovie:`
pub fn stop_movie_arg_bytes() -> (r: Vec<u8>)
    ensures
        r@ == stop_movie_arg(),
{
    let r = vec![0x73u8, 0x74, 0x6f, 0x70, 0x4d, 0x6f, 0x76, 0x69, 0x65, 0x3a];
    assert(r@ =~= stop_movie_arg());
    r
}

/// `stopMovie`
pub open spec fn stop_movie() -> Seq<u8> {
    seq![0x73u8, 0x74, 0x6f, 0x70, 0x4d, 0x6f, 0x76, 0x69, 0x65]
}

/// `stopMovie`
pub fn stop_movie_bytes() -> (r: Vec<u8>)
    ensures
        r@ == stop_movie(),
{
    let r = vec![0x73u8, 0x74, 0x6f, 0x70, 0x4d, 0x6f, 0x76, 0x69, 0x65];
    assert(r@ =~= stop_movie());
    r
}

/// `moviePlayerInit:`
pub open spec fn movie_player_init() -> Seq<u8> {
    seq![0x6du8, 0x6f, 0x76, 0x69, 0x65, 0x50, 0x6c, 0x61, 0x79, 0x65, 0x72, 0x49, 0x6e, 0x69, 0x74, 0x3a]
}

/// `moviePlayerInit:`
pub fn movie_player_init_bytes() -> (r: Vec<u8>)
    ensures
        r@ == movie_player_init(),
{
    let r = vec![0x6du8, 0x6f, 0x76, 0x69, 0x65, 0x50, 0x6c, 0x61, 0x79, 0x65, 0x72, 0x49, 0x6e, 0x69, 0x74, 0x3a];
    assert(r@ =~= movie_player_init());
    r
}

/// `loadMovie:`
pub open spec fn load_movie() -> Seq<u8> {
    seq![0x6cu8, 0x6f, 0x61, 0x64, 0x4d, 0x6f, 0x76, 0x69, 0x65, 0x3a]
}

/// `loadMovie:`
pub fn load_movie_bytes() -> (r: Vec<u8>)
    ensures
        r@ == load_movie(),
{
    let r = vec![0x6cu8, 0x6f, 0x61, 0x64, 0x4d, 0x6f, 0x76, 0x69, 0x65, 0x3a];
    assert(r@ =~= load_movie());
    r
}

} // verus!
