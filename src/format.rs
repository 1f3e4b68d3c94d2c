use vstd::prelude::*;

verus! {

/// The container formats that the decode engine can open.
#[derive(Clone, Copy, Debug, PartialEq, Eq, Structural)]
pub enum ArchiveFormat {
    Zip,
    Rar,
    _7z,
    Tar,
}

/// The formats to try, in order: the hint alone when one is given,
/// otherwise zip, rar, 7z and tar.
pub open spec fn probe_order(hint: Option<ArchiveFormat>) -> Seq<ArchiveFormat> {
    match hint {
        Some(f) => seq![f],
        None => seq![ArchiveFormat::Zip, ArchiveFormat::Rar, ArchiveFormat::_7z, ArchiveFormat::Tar],
    }
}

/// The first format of `order` that opens, where `opens` holds the formats
/// under which the stream opens.
pub open spec fn first_opening(order: Seq<ArchiveFormat>, opens: Set<ArchiveFormat>) -> Option<
    ArchiveFormat,
>
    decreases order.len(),
{
    if order.len() == 0 {
        None
    } else if opens.contains(order[0]) {
        Some(order[0])
    } else {
        first_opening(order.drop_first(), opens)
    }
}

/// What the caller does next while opening a container.
#[derive(Clone, Copy, Debug, PartialEq, Eq, Structural)]
pub enum ProbeAction {
    /// Try to open the stream under this format, then report the outcome.
    Try { format: ArchiveFormat },
    /// The stream opened under this format: the search is over.
    Opened { format: ArchiveFormat },
    /// No candidate opened the stream.
    NoMatch,
}

/// Tries candidate formats in a fixed order until one opens the stream.
pub struct FormatProber {
    order: Vec<ArchiveFormat>,
    pos: usize,
    opened: bool,
}

impl FormatProber {
    /// The candidates, in the order they are tried.
    pub closed spec fn order(&self) -> Seq<ArchiveFormat> {
        self.order@
    }

    /// How many candidates have failed so far.
    pub closed spec fn failed(&self) -> nat {
        self.pos as nat
    }

    /// Whether the candidate at `failed()` opened the stream.
    pub closed spec fn is_opened(&self) -> bool {
        self.opened
    }

    pub closed spec fn wf(&self) -> bool {
        &&& self.pos <= self.order@.len()
        &&& self.opened ==> self.pos < self.order@.len()
    }

    /// The format the search ends with, when `opens` holds the formats under
    /// which the stream opens and every attempt from here on reports that.
    pub open spec fn outcome_under(&self, opens: Set<ArchiveFormat>) -> Option<ArchiveFormat> {
        if self.is_opened() {
            Some(self.order()[self.failed() as int])
        } else {
            first_opening(self.order().subrange(self.failed() as int, self.order().len() as int), opens)
        }
    }

    /// The action that matches the current state.
    pub open spec fn spec_action(&self) -> ProbeAction {
        if self.is_opened() {
            ProbeAction::Opened { format: self.order()[self.failed() as int] }
        } else if self.failed() < self.order().len() {
            ProbeAction::Try { format: self.order()[self.failed() as int] }
        } else {
            ProbeAction::NoMatch
        }
    }

    pub fn new(hint: Option<ArchiveFormat>) -> (p: FormatProber)
        ensures
            p.wf(),
            p.order() == probe_order(hint),
            p.failed() == 0,
            !p.is_opened(),
            forall|opens: Set<ArchiveFormat>|
                #[trigger] p.outcome_under(opens) == first_opening(probe_order(hint), opens),
    {
        let mut order: Vec<ArchiveFormat> = Vec::new();
        match hint {
            Some(f) => {
                order.push(f);
            },
            None => {
                order.push(ArchiveFormat::Zip);
                order.push(ArchiveFormat::Rar);
                order.push(ArchiveFormat::_7z);
                order.push(ArchiveFormat::Tar);
            },
        }
        assert(order@ =~= probe_order(hint));
        assert(order@.subrange(0, order@.len() as int) =~= order@);
        FormatProber { order, pos: 0, opened: false }
    }

    /// What to do next: try a format, or stop with the outcome.
    pub fn action(&self) -> (a: ProbeAction)
        requires
            self.wf(),
        ensures
            a == self.spec_action(),
            a is Opened ==> forall|opens: Set<ArchiveFormat>|
                #[trigger] self.outcome_under(opens) == Some(a->Opened_format),
            a is NoMatch ==> forall|opens: Set<ArchiveFormat>| #[trigger] self.outcome_under(opens) is None,
    {
        if self.opened {
            ProbeAction::Opened { format: self.order[self.pos] }
        } else if self.pos < self.order.len() {
            ProbeAction::Try { format: self.order[self.pos] }
        } else {
            ProbeAction::NoMatch
        }
    }

    /// Reports whether the attempt that `action` asked for opened the stream.
    pub fn report(&mut self, opened: bool)
        requires
            old(self).wf(),
            old(self).spec_action() is Try,
        ensures
            final(self).wf(),
            final(self).order() == old(self).order(),
            opened ==> final(self).is_opened() && final(self).failed() == old(self).failed(),
            !opened ==> !final(self).is_opened() && final(self).failed() == old(self).failed() + 1,
            forall|opens: Set<ArchiveFormat>|
                opens.contains(#[trigger] old(self).spec_action()->Try_format) == opened
                    ==> final(self).outcome_under(opens) == old(self).outcome_under(opens),
    {
        let n = self.order.len();
        if opened {
            self.opened = true;
        } else {
            assert(self.pos < n);
            self.pos = self.pos + 1;
        }
        proof {
            let o = old(self).order@;
            let p = old(self).pos as int;
            assert forall|opens: Set<ArchiveFormat>|
                opens.contains(#[trigger] old(self).spec_action()->Try_format) == opened
                    implies final(self).outcome_under(opens) == old(self).outcome_under(opens) by {
                let rest = o.subrange(p, o.len() as int);
                assert(rest[0] == o[p]);
                if !opened {
                    assert(rest.drop_first() =~= o.subrange(p + 1, o.len() as int));
                }
            }
        }
    }
}

/// Opening with a format hint tries that format alone: it ends with the
/// hinted format when the stream opens under it, and with no match when the
/// hint is wrong.
pub proof fn lemma_hinted_probe(hint: ArchiveFormat, opens: Set<ArchiveFormat>)
    ensures
        first_opening(probe_order(Some(hint)), opens) == if opens.contains(hint) {
            Some(hint)
        } else {
            None::<ArchiveFormat>
        },
{
    let order = probe_order(Some(hint));
    assert(order[0] == hint);
    assert(order.len() == 1);
    assert(order.drop_first().len() == 0);
    assert(first_opening(order.drop_first(), opens) is None);
}

/// Opening without a hint succeeds exactly when the stream opens under at
/// least one of the four formats, and ends with the first of them in the
/// order zip, rar, 7z, tar that does.
pub proof fn lemma_unhinted_probe(opens: Set<ArchiveFormat>)
    ensures
        first_opening(probe_order(None), opens) is Some <==> exists|f: ArchiveFormat|
            opens.contains(f),
        first_opening(probe_order(None), opens) matches Some(f) ==> opens.contains(f),
        opens.contains(ArchiveFormat::Zip) ==> first_opening(probe_order(None), opens) == Some(
            ArchiveFormat::Zip,
        ),
{
    let o = probe_order(None);
    let o1 = o.drop_first();
    let o2 = o1.drop_first();
    let o3 = o2.drop_first();
    let o4 = o3.drop_first();
    assert(o[0] == ArchiveFormat::Zip);
    assert(o1[0] == ArchiveFormat::Rar);
    assert(o2[0] == ArchiveFormat::_7z);
    assert(o3[0] == ArchiveFormat::Tar);
    assert(o4.len() == 0);
    assert(first_opening(o4, opens) is None);
    assert(first_opening(o3, opens) == if opens.contains(ArchiveFormat::Tar) {
        Some(ArchiveFormat::Tar)
    } else {
        first_opening(o4, opens)
    });
    assert(first_opening(o2, opens) == if opens.contains(ArchiveFormat::_7z) {
        Some(ArchiveFormat::_7z)
    } else {
        first_opening(o3, opens)
    });
    assert(first_opening(o1, opens) == if opens.contains(ArchiveFormat::Rar) {
        Some(ArchiveFormat::Rar)
    } else {
        first_opening(o2, opens)
    });
    assert(first_opening(o, opens) == if opens.contains(ArchiveFormat::Zip) {
        Some(ArchiveFormat::Zip)
    } else {
        first_opening(o1, opens)
    });
    if exists|f: ArchiveFormat| opens.contains(f) {
        let f = choose|f: ArchiveFormat| opens.contains(f);
        match f {
            ArchiveFormat::Zip => {},
            ArchiveFormat::Rar => {},
            ArchiveFormat::_7z => {},
            ArchiveFormat::Tar => {},
        }
    }
}

} // verus!
