use vstd::prelude::*;

verus! {

/// The CRTC that the non-desktop connector `connector` was set up with: the
/// first entry for it in `non_desktop`, a list of (connector, CRTC) pairs.
pub open spec fn crtc_of(non_desktop: Seq<(u32, u32)>, connector: u32) -> Option<u32>
    decreases non_desktop.len(),
{
    if non_desktop.len() == 0 {
        None
    } else if non_desktop[0].0 == connector {
        Some(non_desktop[0].1)
    } else {
        crtc_of(non_desktop.drop_first(), connector)
    }
}

fn find_crtc(non_desktop: &Vec<(u32, u32)>, connector: u32) -> (r: Option<u32>)
    ensures
        r == crtc_of(non_desktop@, connector),
{
    let mut i: usize = 0;
    assert(non_desktop@.skip(0) =~= non_desktop@);
    while i < non_desktop.len()
        invariant
            i <= non_desktop@.len(),
            crtc_of(non_desktop@, connector) == crtc_of(non_desktop@.skip(i as int), connector),
        decreases non_desktop@.len() - i,
    {
        assert(non_desktop@.skip(i as int).drop_first() =~= non_desktop@.skip(i + 1));
        assert(non_desktop@.skip(i as int)[0] == non_desktop@[i as int]);
        if non_desktop[i].0 == connector {
            return Some(non_desktop[i].1);
        }
        i = i + 1;
    }
    None
}

/// Decides a DRM lease request for the connectors `requested`: the lease is
/// granted only when every requested connector is a non-desktop one, and it
/// then covers each of them with the CRTC it was set up with, in the order
/// of the request. A request for any desktop connector is rejected (`None`).
pub fn lease_connectors(requested: &Vec<u32>, non_desktop: &Vec<(u32, u32)>) -> (r: Option<Vec<(u32, u32)>>)
    ensures
        r is None <==> exists|i: int| 0 <= i < requested@.len() && crtc_of(non_desktop@, #[trigger] requested@[i]) is None,
        r matches Some(v) ==> {
            &&& v@.len() == requested@.len()
            &&& forall|i: int| 0 <= i < requested@.len() ==> #[trigger] v@[i] == (requested@[i], crtc_of(non_desktop@, requested@[i]).unwrap())
        },
{
    let mut granted: Vec<(u32, u32)> = Vec::new();
    let mut i: usize = 0;
    while i < requested.len()
        invariant
            i <= requested@.len(),
            granted@.len() == i,
            forall|k: int| 0 <= k < i ==> crtc_of(non_desktop@, #[trigger] requested@[k]) is Some,
            forall|k: int| 0 <= k < i ==> #[trigger] granted@[k] == (requested@[k], crtc_of(non_desktop@, requested@[k]).unwrap()),
        decreases requested@.len() - i,
    {
        let connector = requested[i];
        match find_crtc(non_desktop, connector) {
            Some(crtc) => {
                granted.push((connector, crtc));
            },
            None => {
                return None;
            },
        }
        i = i + 1;
    }
    Some(granted)
}

/// Forgets the non-desktop connector `connector` when it is disconnected.
/// Returns whether it was one (the first entry for it is removed); when it
/// was not, the connector drove a desktop output.
pub fn remove_non_desktop(non_desktop: &mut Vec<(u32, u32)>, connector: u32) -> (was_non_desktop: bool)
    ensures
        was_non_desktop == (crtc_of(old(non_desktop)@, connector) is Some),
        !was_non_desktop ==> final(non_desktop)@ == old(non_desktop)@,
        was_non_desktop ==> exists|p: int|
            0 <= p < old(non_desktop)@.len() && old(non_desktop)@[p].0 == connector
            && (forall|k: int| 0 <= k < p ==> (#[trigger] old(non_desktop)@[k]).0 != connector)
            && final(non_desktop)@ == old(non_desktop)@.remove(p),
{
    let mut i: usize = 0;
    assert(non_desktop@.skip(0) =~= non_desktop@);
    while i < non_desktop.len()
        invariant
            non_desktop@ == old(non_desktop)@,
            i <= non_desktop@.len(),
            crtc_of(non_desktop@, connector) == crtc_of(non_desktop@.skip(i as int), connector),
            forall|k: int| 0 <= k < i ==> (#[trigger] non_desktop@[k]).0 != connector,
        decreases non_desktop@.len() - i,
    {
        assert(non_desktop@.skip(i as int).drop_first() =~= non_desktop@.skip(i + 1));
        assert(non_desktop@.skip(i as int)[0] == non_desktop@[i as int]);
        if non_desktop[i].0 == connector {
            non_desktop.remove(i);
            return true;
        }
        i = i + 1;
    }
    false
}

/// What a newly connected connector is used for.
#[derive(Debug, Clone, Copy, PartialEq, Eq, Structural)]
pub enum ConnectorRole {
    /// It is offered for leasing (a head-mounted display, for instance).
    Lease,
    /// It drives an output of the desktop.
    Desktop,
}

/// The role of a connector whose `non-desktop` property reads
/// `non_desktop` (`None` when the property is missing or unreadable).
pub fn connector_role(non_desktop: Option<bool>) -> (r: ConnectorRole)
    ensures
        r == if non_desktop == Some(true) { ConnectorRole::Lease } else { ConnectorRole::Desktop },
{
    match non_desktop {
        Some(true) => ConnectorRole::Lease,
        _ => ConnectorRole::Desktop,
    }
}

/// Records the non-desktop connector `connector`, set up with `crtc`, as
/// available for leasing.
pub fn connect_non_desktop(non_desktop: &mut Vec<(u32, u32)>, connector: u32, crtc: u32)
    ensures
        final(non_desktop)@ == old(non_desktop)@.push((connector, crtc)),
{
    non_desktop.push((connector, crtc));
}

/// A connector recorded for leasing is found with its CRTC, unless it was
/// recorded before; recording it changes nothing for the other connectors.
pub proof fn lemma_lease_after_connect(non_desktop: Seq<(u32, u32)>, connector: u32, crtc: u32, other: u32)
    ensures
        crtc_of(non_desktop, connector) is None ==> crtc_of(non_desktop.push((connector, crtc)), connector) == Some(crtc),
        other != connector ==> crtc_of(non_desktop.push((connector, crtc)), other) == crtc_of(non_desktop, other),
    decreases non_desktop.len(),
{
    let pushed = non_desktop.push((connector, crtc));
    if non_desktop.len() == 0 {
        assert(pushed.drop_first() =~= Seq::<(u32, u32)>::empty());
    } else {
        assert(pushed.drop_first() =~= non_desktop.drop_first().push((connector, crtc)));
        assert(pushed[0] == non_desktop[0]);
        lemma_lease_after_connect(non_desktop.drop_first(), connector, crtc, other);
    }
}

} // verus!
