//! What the small rules and the views come to.

use crate::assoc::{collected, firsts, keys_of, lemma_map_of_entry, map_of, Key};
use crate::error::{AmiError, AmiErrorView};
use crate::files::{is_from, FromPath};
use crate::identity::{account_ids_in, account_ids_view, account_in, replies_view, reply_view};
use crate::image::{
    each_listed_once, has_image, images_view, listed, listed_regions, placed, AccountId, Image,
    ImageView, LaunchPermissionDef, LaunchPermissionView, ListingView,
};
use crate::model::AmisView;
use crate::stage::{
    Action, ActionView, Amispec, CopyOutcome, CopyOutcomeView, CopyReport, CopyRequest, Event,
    EventView, ModifyOptions, RegisteredIds, SearchReplyView,
};
use crate::target::{AwsConfig, Plan, RegionRole, RegionRoleView};
use vstd::prelude::*;

verus! {

// ---------------------------------------------------------------------------------------------
// Messages and inputs.
// ---------------------------------------------------------------------------------------------

/// The message of each error tells what was tried, on what and where, and ends with the
/// description of the failure underneath.
pub proof fn law_message_tells_what_failed(error: AmiErrorView, text: Seq<char>)
    requires
        text == error.message(),
    ensures
        match error {
            AmiErrorView::AmiCopy => {
                text == "Some AMIs failed to copy, see above"@
            },
            AmiErrorView::Amispec { source } => {
                text == "Failed to create an amispec from publication inputs: "@ + source
            },
            AmiErrorView::Config { source } => {
                text == "Error reading config: "@ + source
            },
            AmiErrorView::DescribeImageAttribute { image_id, region, source } => {
                text == "Failed to describe image attributes for image "@ + image_id
                    + " in region "@ + region + ": "@ + source
            },
            AmiErrorView::GetAmiId { name, arch, region, source } => {
                text == "Error getting AMI ID for "@ + arch + " "@ + name + " in "@ + region + ": "@
                    + source
            },
            AmiErrorView::GetCallerIdentity { region, source } => {
                text == "Error getting account ID in "@ + region + ": "@ + source
            },
            AmiErrorView::GetSnapshots { image_id, region, source } => {
                text == "Failed to get snapshot IDs associated with "@ + image_id + " in "@ + region
                    + ": "@ + source
            },
            AmiErrorView::GrantAccess { thing, region, source } => {
                text == "Failed to grant access to "@ + thing + " in "@ + region + ": "@ + source
            },
            AmiErrorView::GrantImageAccess { thing, region, source } => {
                text == "Failed to grant access to "@ + thing + " in "@ + region + ": "@ + source
            },
            AmiErrorView::IsAmiPublic { image_id, region, source } => {
                text == "Failed to check if AMI with id "@ + image_id + " is public in "@ + region
                    + ": "@ + source
            },
            AmiErrorView::LoadVariantManifest { filepath, source } => {
                text == "Failed to load variant manifest from "@ + filepath + ": "@ + source
            },
            AmiErrorView::MissingArchitecture => {
                text == "amispec rendered from pubsys inputs is missing a machine architecture."@
            },
            AmiErrorView::MissingConfig { missing } => {
                text == "Infra.toml is missing "@ + missing
            },
            AmiErrorView::MissingInResponse { request_type, missing } => {
                text == "Response to "@ + request_type + " was missing "@ + missing
            },
            AmiErrorView::ParseToml { filepath, source } => {
                text == "Failed to parse file "@ + filepath + " as toml: "@ + source
            },
            AmiErrorView::ReadFile { filepath, source } => {
                text == "Failed to read file "@ + filepath + ": "@ + source
            },
            AmiErrorView::RegisterImage { name, arch, region, source } => {
                text == "Error registering "@ + arch + " "@ + name + " in "@ + region + ": "@
                    + source
            },
            AmiErrorView::WaitAmi { id, region, source } => {
                text == "AMI '"@ + id + "' in "@ + region + " did not become available: "@ + source
            },
            AmiErrorView::WriteAmis { path, source } => {
                text == "Failed to write AMIs to '"@ + path + "': "@ + source
            },
        },
{
}

/// An input is what was loaded, with the path that it was loaded from.
pub proof fn law_input_keeps_its_path<T>(loaded: FromPath<T>, inner: T, path: Seq<char>)
    ensures
        is_from(loaded, inner, path) <==> loaded.inner == inner && loaded.path@ == path,
{
}

// ---------------------------------------------------------------------------------------------
// Accounts.
// ---------------------------------------------------------------------------------------------

/// A response gives an account ID exactly if it came and holds one. Otherwise the error names the
/// region in which the request failed, or what the response lacks.
pub proof fn law_response_gives_its_account(
    region: Seq<char>,
    account_id: Seq<char>,
    source: Seq<char>,
)
    ensures
        account_in(region, Ok(Some(account_id))) == Ok::<Seq<char>, AmiErrorView>(account_id),
        account_in(region, Ok(None)) == Err::<Seq<char>, AmiErrorView>(
            AmiErrorView::MissingInResponse {
                request_type: "GetCallerIdentity"@,
                missing: "account"@,
            },
        ),
        account_in(region, Err(source)) == Err::<Seq<char>, AmiErrorView>(
            AmiErrorView::GetCallerIdentity { region, source },
        ),
{
}

/// One more response gives its target its account, in place of one that the target had. The error
/// of an earlier response stays.
pub proof fn law_one_more_response(
    responses: Seq<SearchReplyView>,
    target: RegionRoleView,
    account_id: Seq<char>,
)
    ensures
        account_ids_in(Seq::empty()) == Ok::<Map<RegionRoleView, Seq<char>>, AmiErrorView>(
            Map::empty(),
        ),
        account_ids_in(responses) matches Ok(accounts) ==> account_ids_in(
            responses.push((target, Ok(Some(account_id)))),
        ) == Ok::<Map<RegionRoleView, Seq<char>>, AmiErrorView>(
            accounts.insert(target, account_id),
        ),
        account_ids_in(responses) matches Err(error) ==> account_ids_in(
            responses.push((target, Ok(Some(account_id)))),
        ) == Err::<Map<RegionRoleView, Seq<char>>, AmiErrorView>(error),
{
    let more = responses.push((target, Ok(Some(account_id))));
    assert(more.drop_last() =~= responses);
}

/// Each reply is seen as it came, in the order in which it came.
pub proof fn law_replies_are_seen_as_they_came<T: DeepView, E: DeepView>(
    replies: Seq<(RegionRole, Result<T, E>)>,
    i: int,
)
    requires
        0 <= i < replies.len(),
    ensures
        replies_view(replies).len() == replies.len(),
        replies_view(replies)[i].0.region == replies[i].0.region@,
        replies_view(replies)[i].0.role == replies[i].0.role.deep_view(),
        match replies[i].1 {
            Ok(value) => replies_view(replies)[i].1 == Ok::<T::V, E::V>(value.deep_view()),
            Err(source) => replies_view(replies)[i].1 == Err::<T::V, E::V>(source.deep_view()),
        },
        replies_view(replies)[i].1 == reply_view(replies[i].1),
{
}

/// Accounts are seen by their characters.
pub proof fn law_accounts_are_seen_by_their_characters(
    accounts: Map<RegionRoleView, AccountId>,
    target: RegionRoleView,
)
    ensures
        account_ids_view(accounts).contains_key(target) <==> accounts.contains_key(target),
        accounts.contains_key(target) ==> account_ids_view(accounts)[target] == accounts[target]@,
{
}

// ---------------------------------------------------------------------------------------------
// Images.
// ---------------------------------------------------------------------------------------------

/// Recording an image changes one account in one region, and nothing else. A region that was not
/// there has that account alone.
pub proof fn law_recording_changes_one_place(
    amis: AmisView,
    region: Seq<char>,
    account_id: Seq<char>,
    image: ImageView,
)
    ensures
        placed(amis, region, account_id, image).dom() == amis.dom().insert(region),
        forall|r: Seq<char>|
            r != region && amis.contains_key(r) ==> #[trigger] placed(
                amis,
                region,
                account_id,
                image,
            )[r] == amis[r],
        amis.contains_key(region) ==> placed(amis, region, account_id, image)[region]
            == amis[region].insert(account_id, image),
        !amis.contains_key(region) ==> placed(amis, region, account_id, image)[region] == map![
            account_id => image
        ],
{
    assert(placed(amis, region, account_id, image).dom() =~= amis.dom().insert(region));
    if !amis.contains_key(region) {
        assert(placed(amis, region, account_id, image)[region] =~= map![account_id => image]);
    }
}

/// An account has an image in a region exactly if the map has the region, and the account in it.
pub proof fn law_image_is_under_region_and_account(
    amis: AmisView,
    region: Seq<char>,
    account_id: Seq<char>,
)
    ensures
        has_image(amis, region, account_id) <==> amis.dom().contains(region)
            && amis[region].dom().contains(account_id),
{
}

/// One more entry at the end of a list gives its key its value, in place of one that the key had.
pub proof fn law_later_entry_stays<A, B>(pairs: Seq<(A, B)>, key: A, value: B)
    ensures
        collected(Seq::<(A, B)>::empty()) == Map::<A, B>::empty(),
        collected(pairs.push((key, value))) == collected(pairs).insert(key, value),
{
    assert(pairs.push((key, value)).drop_last() =~= pairs);
}

/// One more region at the end of a listing is listed with its accounts, in place of one of that
/// name.
pub proof fn law_later_region_stays(
    listing: ListingView,
    region: Seq<char>,
    accounts: Seq<(Seq<char>, ImageView)>,
)
    ensures
        listed(Seq::empty()) == Map::<Seq<char>, Map<Seq<char>, ImageView>>::empty(),
        listed(listing.push((region, accounts))) == listed(listing).insert(
            region,
            collected(accounts),
        ),
{
    let more = listed_regions(listing.push((region, accounts)));
    assert(more.drop_last() =~= listed_regions(listing));
    assert(listed_regions(Seq::empty()) =~= Seq::empty());
}

/// In a listing that has each place once, no region is named twice, nor an account of a region.
pub proof fn law_listed_once_means_distinct(listing: ListingView)
    ensures
        each_listed_once(listing) <==> {
            &&& forall|i: int, j: int|
                0 <= i < j < listing.len() ==> (#[trigger] listing[i]).0 != (
                #[trigger] listing[j]).0
            &&& forall|k: int, i: int, j: int|
                0 <= k < listing.len() && 0 <= i < j < listing[k].1.len() ==> (
                #[trigger] listing[k].1[i]).0 != (#[trigger] listing[k].1[j]).0
        },
{
    let distinct_regions = forall|i: int, j: int|
        0 <= i < j < listing.len() ==> (#[trigger] listing[i]).0 != (#[trigger] listing[j]).0;
    let distinct_accounts = forall|k: int, i: int, j: int|
        0 <= k < listing.len() && 0 <= i < j < listing[k].1.len() ==> (
        #[trigger] listing[k].1[i]).0 != (#[trigger] listing[k].1[j]).0;
    lemma_distinct_firsts(listing);
    assert forall|k: int| 0 <= k < listing.len() implies (firsts(
        (#[trigger] listing[k]).1,
    ).no_duplicates() <==> forall|i: int, j: int|
        0 <= i < j < listing[k].1.len() ==> (#[trigger] listing[k].1[i]).0 != (
        #[trigger] listing[k].1[j]).0) by {
        lemma_distinct_firsts(listing[k].1);
    }
    if each_listed_once(listing) {
        assert forall|k: int, i: int, j: int|
            0 <= k < listing.len() && 0 <= i < j < listing[k].1.len() implies (
        #[trigger] listing[k].1[i]).0 != (#[trigger] listing[k].1[j]).0 by {
            assert(firsts(listing[k].1).no_duplicates());
        }
    }
    if distinct_regions && distinct_accounts {
        assert forall|k: int| 0 <= k < listing.len() implies firsts(
            (#[trigger] listing[k]).1,
        ).no_duplicates() by {
            lemma_distinct_firsts(listing[k].1);
        }
    }
}

/// The keys of a list are distinct exactly if no two of its pairs have one key.
proof fn lemma_distinct_firsts<A, B>(pairs: Seq<(A, B)>)
    ensures
        firsts(pairs).no_duplicates() <==> forall|i: int, j: int|
            0 <= i < j < pairs.len() ==> (#[trigger] pairs[i]).0 != (#[trigger] pairs[j]).0,
{
    let keys = firsts(pairs);
    if keys.no_duplicates() {
        assert forall|i: int, j: int| 0 <= i < j < pairs.len() implies (#[trigger] pairs[i]).0 != (
        #[trigger] pairs[j]).0 by {
            assert(keys[i] != keys[j]);
        }
    }
    if forall|i: int, j: int|
        0 <= i < j < pairs.len() ==> (#[trigger] pairs[i]).0 != (#[trigger] pairs[j]).0 {
        assert forall|i: int, j: int| 0 <= i < keys.len() && 0 <= j < keys.len() && i != j implies
            keys[i] != keys[j] by {
            if i < j {
                assert(pairs[i].0 != pairs[j].0);
            } else {
                assert(pairs[j].0 != pairs[i].0);
            }
        }
    }
}

/// The entries of a map stand for it: each key is that of an entry, and has its value.
pub proof fn law_entries_stand_for_the_map<K: Key, T>(entries: Seq<(K, T)>, i: int, key: K::V)
    requires
        keys_of(entries).no_duplicates(),
        0 <= i < entries.len(),
    ensures
        map_of(entries).contains_key(entries[i].0@),
        map_of(entries)[entries[i].0@] == entries[i].1,
        map_of(entries).contains_key(key) ==> exists|j: int|
            0 <= j < entries.len() && (#[trigger] entries[j]).0@ == key,
        forall|j: int|
            0 <= j < entries.len() && j != i ==> (#[trigger] entries[j]).0@ != entries[i].0@,
{
    lemma_map_of_entry(entries, i);
    if map_of(entries).contains_key(key) {
        let j = keys_of(entries).index_of(key);
        assert(entries[j].0@ == key);
    }
    assert forall|j: int| 0 <= j < entries.len() && j != i implies (#[trigger] entries[j]).0@
        != entries[i].0@ by {
        assert(keys_of(entries)[j] != keys_of(entries)[i]);
    }
}

// ---------------------------------------------------------------------------------------------
// Views.
// ---------------------------------------------------------------------------------------------

/// An image is seen with all that is recorded of it.
pub proof fn law_image_is_seen_whole(image: Image)
    ensures
        image@.id == image.id@,
        image@.name == image.name@,
        image@.public == image.public,
        image@.launch_permissions is Some <==> image.launch_permissions is Some,
        image.launch_permissions matches Some(list) ==> {
            &&& image@.launch_permissions->Some_0.len() == list@.len()
            &&& forall|i: int|
                0 <= i < list@.len() ==> (#[trigger] image@.launch_permissions->Some_0[i])
                    == list@[i]@
        },
{
}

/// A launch permission is seen with its kind and its holder.
pub proof fn law_permission_is_seen_whole(permission: LaunchPermissionDef)
    ensures
        match permission {
            LaunchPermissionDef::Group(x) => permission@ == LaunchPermissionView::Group(x@),
            LaunchPermissionDef::UserId(x) => permission@ == LaunchPermissionView::UserId(x@),
            LaunchPermissionDef::OrganizationArn(x) => {
                permission@ == LaunchPermissionView::OrganizationArn(x@)
            },
            LaunchPermissionDef::OrganizationalUnitArn(x) => {
                permission@ == LaunchPermissionView::OrganizationalUnitArn(x@)
            },
        },
{
}

/// The images of a region are seen under their accounts.
pub proof fn law_images_are_seen_under_their_accounts(
    accounts: Map<Seq<char>, Image>,
    account_id: Seq<char>,
)
    ensures
        images_view(accounts).contains_key(account_id) <==> accounts.contains_key(account_id),
        accounts.contains_key(account_id) ==> images_view(accounts)[account_id]
            == accounts[account_id]@,
{
}

/// A target is seen with its region and its role, and a plan with its source and its targets.
pub proof fn law_plan_is_seen_whole(plan: Plan)
    ensures
        plan@.source.region == plan.source.region@,
        plan@.source.role is Some <==> plan.source.role is Some,
        plan.source.role matches Some(role) ==> plan@.source.role->Some_0 == role@,
        plan@.targets.len() == plan.targets@.len(),
        forall|i: int|
            0 <= i < plan.targets@.len() ==> {
                &&& (#[trigger] plan@.targets[i]).region == plan.targets@[i].region@
                &&& plan@.targets[i].role is Some <==> plan.targets@[i].role is Some
                &&& plan.targets@[i].role is Some ==> plan@.targets[i].role->Some_0
                    == plan.targets@[i].role->Some_0@
            },
{
}

/// A configuration is seen with its regions in their order, and with the roles of each region in
/// theirs.
pub proof fn law_configuration_is_seen_whole(config: AwsConfig, region: Seq<char>)
    ensures
        config@.regions.len() == config.regions@.len(),
        forall|i: int|
            0 <= i < config.regions@.len() ==> (#[trigger] config@.regions[i])
                == config.regions@[i]@,
        config@.region.contains_key(region) <==> config.region@.contains_key(region),
        config.region@.contains_key(region) ==> {
            &&& config@.region[region].len() == config.region@[region]@.len()
            &&& forall|i: int|
                0 <= i < config.region@[region]@.len() ==> {
                    &&& (#[trigger] config@.region[region][i]) is Some
                        <==> config.region@[region]@[i] is Some
                    &&& config.region@[region]@[i] is Some ==> config@.region[region][i]->Some_0
                        == config.region@[region]@[i]->Some_0@
                }
        },
{
}

/// The registration options and the IDs of an image are seen whole.
pub proof fn law_amispec_and_ids_are_seen_whole(amispec: Amispec, ids: RegisteredIds)
    ensures
        amispec@.name == amispec.name@,
        amispec@.architecture is Some <==> amispec.architecture is Some,
        amispec.architecture matches Some(x) ==> amispec@.architecture->Some_0 == x@,
        amispec@.description is Some <==> amispec.description is Some,
        amispec.description matches Some(x) ==> amispec@.description->Some_0 == x@,
        ids@.image_id == ids.image_id@,
        ids@.snapshot_ids.len() == ids.snapshot_ids@.len(),
        forall|i: int|
            0 <= i < ids.snapshot_ids@.len() ==> (#[trigger] ids@.snapshot_ids[i])
                == ids.snapshot_ids@[i]@,
{
}

/// A copy request is seen whole.
pub proof fn law_copy_request_is_seen_whole(request: CopyRequest)
    ensures
        request@.target.region == request.target.region@,
        request@.target.role is Some <==> request.target.role is Some,
        request.target.role matches Some(role) ==> request@.target.role->Some_0 == role@,
        request@.description is Some <==> request.description is Some,
        request.description matches Some(x) ==> request@.description->Some_0 == x@,
        request@.name == request.name@,
        request@.source_image_id == request.source_image_id@,
        request@.source_region == request.source_region@,
        request@.copy_image_tags == request.copy_image_tags,
{
}

/// A report of a copy is seen whole.
pub proof fn law_copy_report_is_seen_whole(report: CopyReport)
    ensures
        report@.at.region == report.at.region@,
        report@.at.account_id == report.at.account_id@,
        match report.outcome {
            CopyOutcome::Registered(id) => report@.outcome == CopyOutcomeView::Registered(id@),
            CopyOutcome::NoImageId => report@.outcome is NoImageId,
            CopyOutcome::Failed(code) => report@.outcome == CopyOutcomeView::Failed(code@),
        },
{
}

/// An error is seen whole: by its kind, with what it names.
pub proof fn law_error_is_seen_whole(error: AmiError)
    ensures
        match error {
            AmiError::AmiCopy => error@ is AmiCopy,
            AmiError::Amispec { source } => {
                &&& error@ is Amispec
                &&& error@->Amispec_source == source@
            },
            AmiError::Config { source } => {
                &&& error@ is Config
                &&& error@->Config_source == source@
            },
            AmiError::DescribeImageAttribute { image_id, region, source } => {
                &&& error@ is DescribeImageAttribute
                &&& error@->DescribeImageAttribute_image_id == image_id@
                &&& error@->DescribeImageAttribute_region == region@
                &&& error@->DescribeImageAttribute_source == source@
            },
            AmiError::GetAmiId { name, arch, region, source } => {
                &&& error@ is GetAmiId
                &&& error@->GetAmiId_name == name@
                &&& error@->GetAmiId_arch == arch@
                &&& error@->GetAmiId_region == region@
                &&& error@->GetAmiId_source == source@
            },
            AmiError::GetCallerIdentity { region, source } => {
                &&& error@ is GetCallerIdentity
                &&& error@->GetCallerIdentity_region == region@
                &&& error@->GetCallerIdentity_source == source@
            },
            AmiError::GetSnapshots { image_id, region, source } => {
                &&& error@ is GetSnapshots
                &&& error@->GetSnapshots_image_id == image_id@
                &&& error@->GetSnapshots_region == region@
                &&& error@->GetSnapshots_source == source@
            },
            AmiError::GrantAccess { thing, region, source } => {
                &&& error@ is GrantAccess
                &&& error@->GrantAccess_thing == thing@
                &&& error@->GrantAccess_region == region@
                &&& error@->GrantAccess_source == source@
            },
            AmiError::GrantImageAccess { thing, region, source } => {
                &&& error@ is GrantImageAccess
                &&& error@->GrantImageAccess_thing == thing@
                &&& error@->GrantImageAccess_region == region@
                &&& error@->GrantImageAccess_source == source@
            },
            AmiError::IsAmiPublic { image_id, region, source } => {
                &&& error@ is IsAmiPublic
                &&& error@->IsAmiPublic_image_id == image_id@
                &&& error@->IsAmiPublic_region == region@
                &&& error@->IsAmiPublic_source == source@
            },
            AmiError::LoadVariantManifest { filepath, source } => {
                &&& error@ is LoadVariantManifest
                &&& error@->LoadVariantManifest_filepath == filepath@
                &&& error@->LoadVariantManifest_source == source@
            },
            AmiError::MissingArchitecture => error@ is MissingArchitecture,
            AmiError::MissingConfig { missing } => {
                &&& error@ is MissingConfig
                &&& error@->MissingConfig_missing == missing@
            },
            AmiError::MissingInResponse { request_type, missing } => {
                &&& error@ is MissingInResponse
                &&& error@->MissingInResponse_request_type == request_type@
                &&& error@->MissingInResponse_missing == missing@
            },
            AmiError::ParseToml { filepath, source } => {
                &&& error@ is ParseToml
                &&& error@->ParseToml_filepath == filepath@
                &&& error@->ParseToml_source == source@
            },
            AmiError::ReadFile { filepath, source } => {
                &&& error@ is ReadFile
                &&& error@->ReadFile_filepath == filepath@
                &&& error@->ReadFile_source == source@
            },
            AmiError::RegisterImage { name, arch, region, source } => {
                &&& error@ is RegisterImage
                &&& error@->RegisterImage_name == name@
                &&& error@->RegisterImage_arch == arch@
                &&& error@->RegisterImage_region == region@
                &&& error@->RegisterImage_source == source@
            },
            AmiError::WaitAmi { id, region, source } => {
                &&& error@ is WaitAmi
                &&& error@->WaitAmi_id == id@
                &&& error@->WaitAmi_region == region@
                &&& error@->WaitAmi_source == source@
            },
            AmiError::WriteAmis { path, source } => {
                &&& error@ is WriteAmis
                &&& error@->WriteAmis_path == path@
                &&& error@->WriteAmis_source == source@
            },
        },
{
}

/// Those whose access changes are seen each, by what they are.
pub proof fn law_options_are_seen_whole(options: ModifyOptions, holder: Seq<char>)
    ensures
        options@.user_ids.contains(holder) <==> options.user_ids.deep_view().contains(holder),
        options@.group_names.contains(holder) <==> options.group_names.deep_view().contains(holder),
        options@.organization_arns.contains(holder)
            <==> options.organization_arns.deep_view().contains(holder),
        options@.organizational_unit_arns.contains(holder)
            <==> options.organizational_unit_arns.deep_view().contains(holder),
{
}

/// What is asked for is seen whole: each action by its kind, with where it goes and on what.
pub proof fn law_action_is_seen_whole(action: Action)
    ensures
        match action {
            Action::LoadConfig => action@ is LoadConfig,
            Action::RenderAmispec { at } => action@ == (ActionView::RenderAmispec { at: at@ }),
            Action::FindImage { at, name, arch } => action@ == (ActionView::FindImage {
                at: at@,
                name: name@,
                arch: arch@,
            }),
            Action::ListSnapshots { at, image_id } => action@ == (ActionView::ListSnapshots {
                at: at@,
                image_id: image_id@,
            }),
            Action::CheckPublic { at, image_id } => action@ == (ActionView::CheckPublic {
                at: at@,
                image_id: image_id@,
            }),
            Action::ListPermissions { at, image_id } => action@ == (ActionView::ListPermissions {
                at: at@,
                image_id: image_id@,
            }),
            Action::RegisterImage { at } => action@ == (ActionView::RegisterImage { at: at@ }),
            Action::ResolveAccount { at } => action@ == (ActionView::ResolveAccount { at: at@ }),
            Action::AwaitImage { at, image_id, state, successes } => action@ == (
            ActionView::AwaitImage { at: at@, image_id: image_id@, state: state@, successes }),
            Action::ResolveAccounts { targets } => action@ == (ActionView::ResolveAccounts {
                targets: targets.deep_view(),
            }),
            Action::GrantSnapshots { at, options, snapshot_ids } => action@ == (
            ActionView::GrantSnapshots {
                at: at@,
                options: options@,
                snapshot_ids: snapshot_ids.deep_view(),
            }),
            Action::GrantImage { at, options, image_id } => action@ == (ActionView::GrantImage {
                at: at@,
                options: options@,
                image_id: image_id@,
            }),
            Action::FindImages { targets, name, arch } => action@ == (ActionView::FindImages {
                targets: targets.deep_view(),
                name: name@,
                arch: arch@,
            }),
            Action::CopyImages { requests } => action@ == (ActionView::CopyImages {
                requests: requests.deep_view(),
            }),
            Action::Finish => action@ is Finish,
        },
{
}

/// What is answered is seen whole: each event by its kind, with what it tells.
pub proof fn law_event_is_seen_whole(event: Event)
    ensures
        match event {
            Event::ConfigLoaded(x) => event@ == EventView::ConfigLoaded(reply_view(x)),
            Event::AmispecRendered(x) => event@ == EventView::AmispecRendered(reply_view(x)),
            Event::ImageSearched(x) => event@ == EventView::ImageSearched(reply_view(x)),
            Event::SnapshotsListed(x) => event@ == EventView::SnapshotsListed(reply_view(x)),
            Event::PublicChecked(x) => event@ == EventView::PublicChecked(reply_view(x)),
            Event::PermissionsListed(x) => event@ == EventView::PermissionsListed(reply_view(x)),
            Event::ImageRegistered(x) => event@ == EventView::ImageRegistered(reply_view(x)),
            Event::AccountResolved(x) => event@ == EventView::AccountResolved(reply_view(x)),
            Event::ImageAwaited(x) => event@ == EventView::ImageAwaited(reply_view(x)),
            Event::AccountsResolved(x) => event@ == EventView::AccountsResolved(replies_view(x@)),
            Event::AccessGranted(x) => event@ == EventView::AccessGranted(reply_view(x)),
            Event::ImagesSearched(x) => event@ == EventView::ImagesSearched(replies_view(x@)),
            Event::ImagesCopied(x) => event@ == EventView::ImagesCopied(replies_view(x@)),
        },
{
}

} // verus!
