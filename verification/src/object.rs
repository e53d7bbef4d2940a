//! Objects of the device's content tree, as local snapshots.
//!
//! An object on the device has an opaque, device-scoped text ID, a display
//! name, and a content-category tag.  Name and category are captured once
//! when the snapshot is taken and immutable afterwards: the snapshot is not a
//! live view, and re-reading requires asking the device again by ID.

use vstd::prelude::*;
use crate::error::{CreateFolderError, ItemByPathError};

verus! {

/// A 128-bit type tag, as one unsigned value.
///
/// The device protocol identifies each content category by such a tag; this
/// engine treats the tag as a plain number and only ever compares it for
/// equality.
#[derive(Debug, Clone, Copy, PartialEq, Eq, Structural)]
pub struct Guid {
    pub value: u128,
}

/// The content category of an object: a closed enumeration over folders,
/// functional roots, generic files and the typed media, document and
/// communication categories the protocol defines, plus an `Unknown`
/// catch-all so that unrecognized (future or vendor) categories are
/// tolerated instead of failing.
#[derive(Debug, Clone, Copy, PartialEq, Eq, Structural)]
pub enum ObjectType {
    All,
    Appointment,
    Audio,
    AudioAlbum,
    Calendar,
    Certificate,
    Contact,
    ContactGroup,
    Document,
    Email,
    Folder,
    FunctionalObject,
    GenericFile,
    GenericMessage,
    Image,
    ImageAlbum,
    MediaCast,
    Memo,
    MixedContentAlbum,
    NetworkAssociation,
    Playlist,
    Program,
    Section,
    Task,
    Television,
    Unspecified,
    Video,
    VideoAlbum,
    WirelessProfile,
    Unknown,
}

/// The type tag that stands for each category in the device protocol.
///
/// `All` and `Unknown` have no tag of their own; they are mapped to the
/// protocol's catch-all tag.
pub open spec fn spec_as_guid(t: ObjectType) -> Guid {
    match t {
        ObjectType::Appointment => Guid { value: 0x0fed060e_8793_4b1e_90c9_48ac389ac631 },
        ObjectType::Audio => Guid { value: 0x4ad2c85e_5e2d_45e5_8864_4f229e3c6cf0 },
        ObjectType::AudioAlbum => Guid { value: 0xaa18737e_5009_48fa_ae21_85f24383b4e6 },
        ObjectType::Calendar => Guid { value: 0xa1fd5967_6023_49a0_9df1_f8060be751b0 },
        ObjectType::Certificate => Guid { value: 0xdc3876e8_a948_4060_9050_cbd77e8a3d87 },
        ObjectType::Contact => Guid { value: 0xeaba8313_4525_4707_9f0e_87c6808e9435 },
        ObjectType::ContactGroup => Guid { value: 0x346b8932_4c36_40d8_9415_1828291f9de9 },
        ObjectType::Document => Guid { value: 0x680adf52_950a_4041_9b41_65e393648155 },
        ObjectType::Email => Guid { value: 0x8038044a_7e51_4f8f_883d_1d0623d14533 },
        ObjectType::Folder => Guid { value: 0x27e2e392_a111_48e0_ab0c_e17705a05f85 },
        ObjectType::FunctionalObject => Guid { value: 0x99ed0160_17ff_4c44_9d98_1d7a6f941921 },
        ObjectType::GenericFile => Guid { value: 0x0085e0a6_8d34_45d7_bc5c_447e59c73d48 },
        ObjectType::GenericMessage => Guid { value: 0xe80eaaf8_b2db_4133_b67e_1bef4b4a6e5f },
        ObjectType::Image => Guid { value: 0xef2107d5_a52a_4243_a26b_62d4176d7603 },
        ObjectType::ImageAlbum => Guid { value: 0x75793148_15f5_4a30_a813_54ed8a37e226 },
        ObjectType::MediaCast => Guid { value: 0x5e88b3cc_3e65_4e62_bfff_229495253ab0 },
        ObjectType::Memo => Guid { value: 0x9cd20ecf_3b50_414f_a641_e473ffe45751 },
        ObjectType::MixedContentAlbum => Guid { value: 0x00f0c3ac_a593_49ac_9219_24abca5a2563 },
        ObjectType::NetworkAssociation => Guid { value: 0x031da7ee_18c8_4205_847e_89a11261d0f3 },
        ObjectType::Playlist => Guid { value: 0x1a33f7e4_af13_48f5_994e_77369dfe04a3 },
        ObjectType::Program => Guid { value: 0xd269f96a_247c_4bff_98fb_97f3c49220e6 },
        ObjectType::Section => Guid { value: 0x821089f5_1d91_4dc9_be3c_bbb1b35b18ce },
        ObjectType::Task => Guid { value: 0x63252f2c_887f_4cb6_b1ac_d29855dcef6c },
        ObjectType::Television => Guid { value: 0x60a169cf_f2ae_4e21_9375_9677f11c1c6e },
        ObjectType::Unspecified => Guid { value: 0x28d8d31e_249c_454e_aabc_34883168e634 },
        ObjectType::Video => Guid { value: 0x9261b03c_3d78_4519_85e3_02c5e1f50bb9 },
        ObjectType::VideoAlbum => Guid { value: 0x012b0db7_d4c1_45d6_b081_94b87779614f },
        ObjectType::WirelessProfile => Guid { value: 0x0bac070a_9f5f_4da4_a8f6_3de44d68fd6c },
        ObjectType::All => Guid { value: 0x80e170d2_1055_4a3e_b952_82cc4f8a8689 },
        ObjectType::Unknown => Guid { value: 0x80e170d2_1055_4a3e_b952_82cc4f8a8689 },
    }
}

/// The category a type tag stands for: the first category (in declaration
/// order) whose tag equals `guid`, or `Unknown` for an unrecognized tag.
pub open spec fn spec_from_guid(guid: Guid) -> ObjectType {
    if guid == spec_as_guid(ObjectType::Appointment) {
        ObjectType::Appointment
    } else if guid == spec_as_guid(ObjectType::Audio) {
        ObjectType::Audio
    } else if guid == spec_as_guid(ObjectType::AudioAlbum) {
        ObjectType::AudioAlbum
    } else if guid == spec_as_guid(ObjectType::Calendar) {
        ObjectType::Calendar
    } else if guid == spec_as_guid(ObjectType::Certificate) {
        ObjectType::Certificate
    } else if guid == spec_as_guid(ObjectType::Contact) {
        ObjectType::Contact
    } else if guid == spec_as_guid(ObjectType::ContactGroup) {
        ObjectType::ContactGroup
    } else if guid == spec_as_guid(ObjectType::Document) {
        ObjectType::Document
    } else if guid == spec_as_guid(ObjectType::Email) {
        ObjectType::Email
    } else if guid == spec_as_guid(ObjectType::Folder) {
        ObjectType::Folder
    } else if guid == spec_as_guid(ObjectType::FunctionalObject) {
        ObjectType::FunctionalObject
    } else if guid == spec_as_guid(ObjectType::GenericFile) {
        ObjectType::GenericFile
    } else if guid == spec_as_guid(ObjectType::GenericMessage) {
        ObjectType::GenericMessage
    } else if guid == spec_as_guid(ObjectType::Image) {
        ObjectType::Image
    } else if guid == spec_as_guid(ObjectType::ImageAlbum) {
        ObjectType::ImageAlbum
    } else if guid == spec_as_guid(ObjectType::MediaCast) {
        ObjectType::MediaCast
    } else if guid == spec_as_guid(ObjectType::Memo) {
        ObjectType::Memo
    } else if guid == spec_as_guid(ObjectType::MixedContentAlbum) {
        ObjectType::MixedContentAlbum
    } else if guid == spec_as_guid(ObjectType::NetworkAssociation) {
        ObjectType::NetworkAssociation
    } else if guid == spec_as_guid(ObjectType::Playlist) {
        ObjectType::Playlist
    } else if guid == spec_as_guid(ObjectType::Program) {
        ObjectType::Program
    } else if guid == spec_as_guid(ObjectType::Section) {
        ObjectType::Section
    } else if guid == spec_as_guid(ObjectType::Task) {
        ObjectType::Task
    } else if guid == spec_as_guid(ObjectType::Television) {
        ObjectType::Television
    } else if guid == spec_as_guid(ObjectType::Unspecified) {
        ObjectType::Unspecified
    } else if guid == spec_as_guid(ObjectType::Video) {
        ObjectType::Video
    } else if guid == spec_as_guid(ObjectType::VideoAlbum) {
        ObjectType::VideoAlbum
    } else if guid == spec_as_guid(ObjectType::WirelessProfile) {
        ObjectType::WirelessProfile
    } else {
        ObjectType::Unknown
    }
}

/// The categories that aggregate or contain other objects rather than carry
/// data of their own.  This is a deliberate, documented opinion of the
/// engine, not a device guarantee.
pub open spec fn spec_is_container(t: ObjectType) -> bool {
    ||| t == ObjectType::AudioAlbum
    ||| t == ObjectType::ContactGroup
    ||| t == ObjectType::Folder
    ||| t == ObjectType::FunctionalObject
    ||| t == ObjectType::ImageAlbum
    ||| t == ObjectType::MixedContentAlbum
    ||| t == ObjectType::VideoAlbum
}

impl ObjectType {
    /// The category a device-reported type tag stands for; unrecognized
    /// tags become `Unknown` rather than an error.
    pub fn from_guid(guid: Guid) -> (r: Self)
        ensures
            r == spec_from_guid(guid),
    {
        if guid == Self::Appointment.as_guid() {
            Self::Appointment
        } else if guid == Self::Audio.as_guid() {
            Self::Audio
        } else if guid == Self::AudioAlbum.as_guid() {
            Self::AudioAlbum
        } else if guid == Self::Calendar.as_guid() {
            Self::Calendar
        } else if guid == Self::Certificate.as_guid() {
            Self::Certificate
        } else if guid == Self::Contact.as_guid() {
            Self::Contact
        } else if guid == Self::ContactGroup.as_guid() {
            Self::ContactGroup
        } else if guid == Self::Document.as_guid() {
            Self::Document
        } else if guid == Self::Email.as_guid() {
            Self::Email
        } else if guid == Self::Folder.as_guid() {
            Self::Folder
        } else if guid == Self::FunctionalObject.as_guid() {
            Self::FunctionalObject
        } else if guid == Self::GenericFile.as_guid() {
            Self::GenericFile
        } else if guid == Self::GenericMessage.as_guid() {
            Self::GenericMessage
        } else if guid == Self::Image.as_guid() {
            Self::Image
        } else if guid == Self::ImageAlbum.as_guid() {
            Self::ImageAlbum
        } else if guid == Self::MediaCast.as_guid() {
            Self::MediaCast
        } else if guid == Self::Memo.as_guid() {
            Self::Memo
        } else if guid == Self::MixedContentAlbum.as_guid() {
            Self::MixedContentAlbum
        } else if guid == Self::NetworkAssociation.as_guid() {
            Self::NetworkAssociation
        } else if guid == Self::Playlist.as_guid() {
            Self::Playlist
        } else if guid == Self::Program.as_guid() {
            Self::Program
        } else if guid == Self::Section.as_guid() {
            Self::Section
        } else if guid == Self::Task.as_guid() {
            Self::Task
        } else if guid == Self::Television.as_guid() {
            Self::Television
        } else if guid == Self::Unspecified.as_guid() {
            Self::Unspecified
        } else if guid == Self::Video.as_guid() {
            Self::Video
        } else if guid == Self::VideoAlbum.as_guid() {
            Self::VideoAlbum
        } else if guid == Self::WirelessProfile.as_guid() {
            Self::WirelessProfile
        } else {
            Self::Unknown
        }
    }

    /// The type tag to report for this category when creating objects.
    pub fn as_guid(&self) -> (r: Guid)
        ensures
            r == spec_as_guid(*self),
    {
        match self {
            Self::Appointment => Guid { value: 0x0fed060e_8793_4b1e_90c9_48ac389ac631 },
            Self::Audio => Guid { value: 0x4ad2c85e_5e2d_45e5_8864_4f229e3c6cf0 },
            Self::AudioAlbum => Guid { value: 0xaa18737e_5009_48fa_ae21_85f24383b4e6 },
            Self::Calendar => Guid { value: 0xa1fd5967_6023_49a0_9df1_f8060be751b0 },
            Self::Certificate => Guid { value: 0xdc3876e8_a948_4060_9050_cbd77e8a3d87 },
            Self::Contact => Guid { value: 0xeaba8313_4525_4707_9f0e_87c6808e9435 },
            Self::ContactGroup => Guid { value: 0x346b8932_4c36_40d8_9415_1828291f9de9 },
            Self::Document => Guid { value: 0x680adf52_950a_4041_9b41_65e393648155 },
            Self::Email => Guid { value: 0x8038044a_7e51_4f8f_883d_1d0623d14533 },
            Self::Folder => Guid { value: 0x27e2e392_a111_48e0_ab0c_e17705a05f85 },
            Self::FunctionalObject => Guid { value: 0x99ed0160_17ff_4c44_9d98_1d7a6f941921 },
            Self::GenericFile => Guid { value: 0x0085e0a6_8d34_45d7_bc5c_447e59c73d48 },
            Self::GenericMessage => Guid { value: 0xe80eaaf8_b2db_4133_b67e_1bef4b4a6e5f },
            Self::Image => Guid { value: 0xef2107d5_a52a_4243_a26b_62d4176d7603 },
            Self::ImageAlbum => Guid { value: 0x75793148_15f5_4a30_a813_54ed8a37e226 },
            Self::MediaCast => Guid { value: 0x5e88b3cc_3e65_4e62_bfff_229495253ab0 },
            Self::Memo => Guid { value: 0x9cd20ecf_3b50_414f_a641_e473ffe45751 },
            Self::MixedContentAlbum => Guid { value: 0x00f0c3ac_a593_49ac_9219_24abca5a2563 },
            Self::NetworkAssociation => Guid { value: 0x031da7ee_18c8_4205_847e_89a11261d0f3 },
            Self::Playlist => Guid { value: 0x1a33f7e4_af13_48f5_994e_77369dfe04a3 },
            Self::Program => Guid { value: 0xd269f96a_247c_4bff_98fb_97f3c49220e6 },
            Self::Section => Guid { value: 0x821089f5_1d91_4dc9_be3c_bbb1b35b18ce },
            Self::Task => Guid { value: 0x63252f2c_887f_4cb6_b1ac_d29855dcef6c },
            Self::Television => Guid { value: 0x60a169cf_f2ae_4e21_9375_9677f11c1c6e },
            Self::Unspecified => Guid { value: 0x28d8d31e_249c_454e_aabc_34883168e634 },
            Self::Video => Guid { value: 0x9261b03c_3d78_4519_85e3_02c5e1f50bb9 },
            Self::VideoAlbum => Guid { value: 0x012b0db7_d4c1_45d6_b081_94b87779614f },
            Self::WirelessProfile => Guid { value: 0x0bac070a_9f5f_4da4_a8f6_3de44d68fd6c },
            Self::All => Guid { value: 0x80e170d2_1055_4a3e_b952_82cc4f8a8689 },
            Self::Unknown => Guid { value: 0x80e170d2_1055_4a3e_b952_82cc4f8a8689 },
        }
    }

    /// Whether an object of this category carries data of its own (true)
    /// rather than aggregating other objects (false).  Used to decide
    /// default listing and transfer behaviour.
    pub fn is_file_like(&self) -> (r: bool)
        ensures
            r == !spec_is_container(*self),
    {
        !matches!(self,
            Self::AudioAlbum |
            Self::ContactGroup |
            Self::Folder |
            Self::FunctionalObject |
            Self::ImageAlbum |
            Self::MixedContentAlbum |
            Self::VideoAlbum
        )
    }
}

/// LAW: the category mapping is invertible on the true categories — every
/// category with a tag of its own is recovered from that tag.  (`All` and
/// `Unknown` have no tag of their own and are mapped to the catch-all tag,
/// which is recognized as `Unknown`.)
pub proof fn lemma_guid_round_trip(t: ObjectType)
    requires
        t != ObjectType::All,
        t != ObjectType::Unknown,
    ensures
        spec_from_guid(spec_as_guid(t)) == t,
{
}

/// A mathematical snapshot of one object: its opaque ID, display name and
/// category, all as plain sequences.
pub struct ObjView {
    pub id: Seq<char>,
    pub name: Seq<char>,
    pub ty: ObjectType,
}

/// A snapshotted handle to one node of the device's content tree.
///
/// The ID is an opaque, device-scoped text token; equality of IDs is exact
/// text equality.  Name and category were fetched once when the snapshot was
/// taken; the device may have changed since.
#[derive(Debug)]
pub struct ObjectInfo {
    /// The device-scoped ID of the object (stable only within a session).
    pub id: String,
    /// The display name of the object.
    pub name: String,
    /// The content category of the object.
    pub ty: ObjectType,
}

impl View for ObjectInfo {
    type V = ObjView;

    open spec fn view(&self) -> ObjView {
        ObjView { id: self.id@, name: self.name@, ty: self.ty }
    }
}

impl Clone for ObjectInfo {
    /// A clone is another snapshot of the very same object.
    fn clone(&self) -> (r: Self)
        ensures
            r@ == self@,
    {
        ObjectInfo { id: self.id.clone(), name: self.name.clone(), ty: self.ty }
    }
}

/// The views of a sequence of snapshots.
pub open spec fn views_of(objs: Seq<ObjectInfo>) -> Seq<ObjView> {
    objs.map_values(|o: ObjectInfo| o@)
}

/// The snapshots of one category, in their original order.
pub open spec fn only_type(objs: Seq<ObjView>, ty: ObjectType) -> Seq<ObjView> {
    objs.filter(|o: ObjView| o.ty == ty)
}

/// Keep only the children of one category, in their enumeration order.
///
/// The device protocol has no filtered enumeration: a filtered listing is an
/// ordinary scan over the full child sequence and costs nothing beyond it.
pub fn filter_by_type(children: &Vec<ObjectInfo>, ty: ObjectType) -> (r: Vec<ObjectInfo>)
    ensures
        views_of(r@) == only_type(views_of(children@), ty),
{
    let n = children.len();
    let mut out: Vec<ObjectInfo> = Vec::new();
    let mut i: usize = 0;
    while i < n
        invariant
            n == children@.len(),
            i <= n,
            views_of(out@) == only_type(views_of(children@.take(i as int)), ty),
        decreases n - i,
    {
        let child = children[i].clone();
        let ghost prev_views = views_of(out@);
        if child.ty == ty {
            out.push(child);
        }
        proof {
            reveal(Seq::filter);
            let pre = views_of(children@.take(i as int));
            let cur = views_of(children@.take(i + 1));
            assert(cur.drop_last() =~= pre);
            assert(cur.last() == children@[i as int]@);
            if children@[i as int]@.ty == ty {
                assert(views_of(out@) =~= prev_views.push(children@[i as int]@));
            }
            assert(views_of(out@) =~= only_type(cur, ty));
        }
        i = i + 1;
    }
    proof {
        assert(children@.take(n as int) =~= children@);
    }
    out
}

/// Decide whether one lazy enumeration step ends the listing: the device
/// cursor hands back fewer IDs than requested exactly when the sequence is
/// exhausted — a natural end, not an error.
pub fn enumeration_exhausted(requested: u32, delivered: u32) -> (r: bool)
    ensures
        r == (delivered != requested),
{
    delivered != requested
}

/// The pre-flight decision of folder creation: if the name already resolved
/// to an object under the parent, fail fast with `AlreadyExists` and do not
/// issue the native create call (whose own failure in this case is an
/// unhelpful opaque error).  Any failed resolution — not found, or even a
/// failed round trip — lets the create call proceed and speak for itself.
pub fn create_folder_precheck(
    resolution: &Result<ObjectInfo, ItemByPathError>,
) -> (r: Result<(), CreateFolderError>)
    ensures
        r is Ok <==> !(resolution is Ok),
        resolution is Ok ==> r == Result::<(), CreateFolderError>::Err(
            CreateFolderError::AlreadyExists,
        ),
{
    match resolution {
        Ok(_) => Err(CreateFolderError::AlreadyExists),
        Err(_) => Ok(()),
    }
}

/// The native option flag of a delete call.  The protocol itself ignores
/// whether the target is a container and simply refuses recursion-less
/// deletion of one; the caller's choice is passed through unchanged.
pub fn delete_option_flag(recursive: bool) -> (r: u32)
    ensures
        r == if recursive {
            1u32
        } else {
            0u32
        },
{
    if recursive {
        1
    } else {
        0
    }
}

/// The names an enumeration yields, as a set.
pub open spec fn name_set(objs: Seq<ObjView>) -> Set<Seq<char>> {
    Set::new(|n: Seq<char>| exists|i: int| 0 <= i < objs.len() && objs[i].name == n)
}

/// LAW: a listing of children is exactly what the device reported, so two
/// enumerations of an unmodified container — the same children, in whatever
/// order the device hands them out — yield the same set of names.
pub proof fn lemma_same_children_same_names(l1: Seq<ObjView>, l2: Seq<ObjView>)
    requires
        l1.to_multiset() == l2.to_multiset(),
    ensures
        name_set(l1) == name_set(l2),
{
    broadcast use vstd::seq_lib::group_to_multiset_ensures;

    assert forall|n: Seq<char>| name_set(l1).contains(n) implies name_set(l2).contains(n) by {
        let i = choose|i: int| 0 <= i < l1.len() && l1[i].name == n;
        assert(l1.contains(l1[i]));
        assert(l2.to_multiset().count(l1[i]) > 0);
        assert(l2.contains(l1[i]));
        let j = choose|j: int| 0 <= j < l2.len() && l2[j] == l1[i];
        assert(l2[j].name == n);
    };
    assert forall|n: Seq<char>| name_set(l2).contains(n) implies name_set(l1).contains(n) by {
        let i = choose|i: int| 0 <= i < l2.len() && l2[i].name == n;
        assert(l2.contains(l2[i]));
        assert(l1.to_multiset().count(l2[i]) > 0);
        assert(l1.contains(l2[i]));
        let j = choose|j: int| 0 <= j < l1.len() && l1[j] == l2[i];
        assert(l1[j].name == n);
    };
    assert(name_set(l1) =~= name_set(l2));
}

} // verus!
