//! New Task as a sheet in two screens, and the third that asks about a mirror: what each
//! control does to what the sheet holds, and what Continue and Download decide. The fields'
//! text is held as text; the engine, the rules and the window act on what is decided here.

use vstd::prelude::*;
use crate::text::{
    decimal, decimal_chars, parse_unsigned, string_from_chars, trim, trimmed, unsigned_of,
};
use crate::ui::add_dialog::{address_of, parse_address, part_of_file, part_spec};

verus! {

/// The file the second screen is about: its address and what a look at it found.
pub struct Found {
    pub url: String,
    /// The name the server gives it.
    pub file_name: String,
    /// Its size, when the server said.
    pub size: Option<u64>,
    /// Whether the server serves parts of it.
    pub ranges: bool,
}

/// A file a page links to.
pub struct Link {
    pub url: String,
    pub name: String,
}

/// A page, a script or a stylesheet, waiting for Download anyway; a page's links beside it,
/// and which of them were taken.
pub struct Confirm {
    pub found: Found,
    pub kind: String,
    pub links: Vec<Link>,
    pub added: Vec<usize>,
}

/// What went wrong, said in a line, with the whole text behind Details when there is one.
pub struct Problem {
    pub summary: String,
    pub detail: Option<String>,
}

/// What was chosen for a source's domain about its mirrors.
#[derive(Clone, Copy, Debug, PartialEq, Eq, Structural)]
pub enum Choice {
    /// Use a mirror when possible.
    Auto,
    /// Never ask for this source.
    Never,
}

/// What the rules say about the file on the second screen.
pub struct Resolved {
    pub choice: Option<Choice>,
    pub mirrors: Vec<String>,
    /// The checksum the rules found: its algorithm's name and its hex.
    pub checksum: Option<(String, String)>,
}

/// The engine's answer about an address.
pub enum Answer {
    /// A file: on to the second screen.
    File(Found),
    /// A page, a script or a stylesheet, and the files a page links to: asked about first.
    Page { found: Found, kind: String, links: Vec<Link> },
    /// A failure, said in a line and in full.
    Failed { summary: String, detail: String },
}

/// Where a download goes besides its source.
#[derive(Clone, Copy, Debug, PartialEq, Eq, Structural)]
pub enum MirrorPlan {
    /// Nowhere: the source alone.
    Source,
    /// The mirrors the rules find usable, with the checksum typed by the user or filled in.
    Usable { typed: bool },
    /// The user is asked first.
    Ask,
}

/// What the second screen's fields ask for, read and checked.
pub struct Asked {
    pub connections: Option<u16>,
    pub directory: Option<String>,
    pub checksum: Option<String>,
    pub range: Option<String>,
}

/// What Enter, Continue or Download leads to.
pub enum Submit {
    /// Nothing more: the field was empty, or what to say is on the sheet.
    Nothing,
    /// The engine is to look at this address.
    Inspect(String),
    /// The file is to be queued with what was asked, going to the mirrors the plan says.
    Download { asked: Asked, plan: MirrorPlan },
}

/// The sheet while it is up.
pub struct AddSheet {
    /// The address field.
    pub input: String,
    /// The address the engine is looking at.
    pub checking: Option<String>,
    pub problem: Option<Problem>,
    pub details: bool,
    pub confirm: Option<Confirm>,
    pub found: Option<Found>,
    /// The name to save under.
    pub name: String,
    /// More options: the folder, the limit, the part of the file and the checksum.
    pub more: bool,
    pub checksum: String,
    pub folder: Option<String>,
    pub limit: String,
    pub range_start: String,
    pub range_end: String,
    /// The rules are working the file out.
    pub resolving: bool,
    pub resolved: Option<Resolved>,
    /// The checksum the rules filled in, so one typed over it is told apart.
    pub filled_checksum: Option<String>,
    /// The third screen: a mirror was found and no checksum, and the user is asked.
    pub asking: bool,
}

/// Why a checksum field was refused.
pub open spec fn bad_checksum() -> Seq<char> {
    "A checksum is sha256, sha512 or md5, written in hex."@
}

/// Why a checksum and a range were refused together.
pub open spec fn checksum_of_part() -> Seq<char> {
    "A checksum is for the whole file; clear it to download a part."@
}

/// Why an address was refused.
pub open spec fn not_an_address() -> Seq<char> {
    "That is not a web address."@
}

/// What the second screen's checksum and range fields ask for, or why they cannot be had:
/// the checksum, trimmed, when there is one and it reads as one; the range the two fields
/// make; and never both, since a checksum is of the whole file.
pub open spec fn asked_of(sheet: AddSheet, checksum_ok: bool) -> Result<
    (Option<Seq<char>>, Option<Seq<char>>),
    Seq<char>,
> {
    let c = trim(sheet.checksum@);
    if c.len() > 0 && !checksum_ok {
        Err(bad_checksum())
    } else {
        let size = match sheet.found {
            Some(f) => f.size,
            None => None,
        };
        match part_spec(trim(sheet.range_start@), trim(sheet.range_end@), size) {
            Err(e) => Err(e),
            Ok(range) => if range is Some && c.len() > 0 {
                Err(checksum_of_part())
            } else {
                Ok(
                    (
                        if c.len() > 0 {
                            Some(c)
                        } else {
                            None
                        },
                        range,
                    ),
                )
            },
        }
    }
}

/// Where the download goes besides its source: nowhere while the rules have not answered, or
/// when they were told never to ask; to the usable mirrors when there is a checksum to hold
/// them to, typed by the user unless it is the one the rules filled in; nowhere when there is
/// no mirror or the domain's choice is to use one when possible; and otherwise the user is
/// asked.
pub open spec fn plan_of(sheet: AddSheet, has_checksum: bool) -> MirrorPlan {
    match sheet.resolved {
        None => MirrorPlan::Source,
        Some(resolved) => if resolved.choice == Some(Choice::Never) {
            MirrorPlan::Source
        } else if has_checksum {
            MirrorPlan::Usable {
                typed: match sheet.filled_checksum {
                    Some(filled) => filled@ != trim(sheet.checksum@),
                    None => true,
                },
            }
        } else if resolved.mirrors@.len() == 0 || resolved.choice == Some(Choice::Auto) {
            MirrorPlan::Source
        } else {
            MirrorPlan::Ask
        },
    }
}

/// What taking a file on to the second screen does to the sheet: the file kept, the rules
/// set to work it out or not, nothing asked, confirmed or wrong; the name the server gives,
/// and the whole file as the range when the server said its size and serves parts, each only
/// where the field was empty; everything typed by hand left as it was.
pub open spec fn accepts(before: AddSheet, after: AddSheet, found: Found, resolving: bool) -> bool {
    &&& after.found == Some(found)
    &&& after.resolving == resolving && after.resolved is None
    &&& !after.asking && after.confirm is None && after.problem is None
    &&& !after.details
    &&& after.name@ == if trim(before.name@).len() == 0 {
        found.file_name@
    } else {
        before.name@
    }
    &&& found.ranges && found.size is Some ==> {
        &&& after.range_start@ == if trim(before.range_start@).len() == 0 {
            "0"@
        } else {
            before.range_start@
        }
        &&& after.range_end@ == if trim(before.range_end@).len() == 0 {
            decimal(found.size->0 as nat)
        } else {
            before.range_end@
        }
    }
    &&& !(found.ranges && found.size is Some) ==> after.range_start == before.range_start
        && after.range_end == before.range_end
    &&& after.input == before.input && after.checking == before.checking
    &&& after.more == before.more && after.checksum == before.checksum
    &&& after.folder == before.folder && after.limit == before.limit
    &&& after.filled_checksum == before.filled_checksum
}

impl AddSheet {
    /// The sheet as it opens: the address field filled from the clipboard when what is there
    /// reads as an address, everything else empty.
    pub fn open(clipboard: Option<&str>) -> (sheet: AddSheet)
        ensures
            match clipboard {
                Some(text) => match address_of(text@) {
                    Some(a) => sheet.input@ == a,
                    None => sheet.input@ == Seq::<char>::empty(),
                },
                None => sheet.input@ == Seq::<char>::empty(),
            },
            sheet.checking is None && sheet.problem is None && !sheet.details,
            sheet.confirm is None && sheet.found is None && !sheet.more && !sheet.asking,
            sheet.name@.len() == 0 && sheet.checksum@.len() == 0 && sheet.limit@.len() == 0,
            sheet.range_start@.len() == 0 && sheet.range_end@.len() == 0,
            sheet.folder is None && !sheet.resolving && sheet.resolved is None,
            sheet.filled_checksum is None,
    {
        let input = match clipboard {
            Some(text) => match parse_address(text) {
                Some(a) => a,
                None => String::new(),
            },
            None => String::new(),
        };
        AddSheet {
            input,
            checking: None,
            problem: None,
            details: false,
            confirm: None,
            found: None,
            name: String::new(),
            more: false,
            checksum: String::new(),
            folder: None,
            limit: String::new(),
            range_start: String::new(),
            range_end: String::new(),
            resolving: false,
            resolved: None,
            filled_checksum: None,
            asking: false,
        }
    }

    /// Whether a click outside may close the sheet: only while nothing has been typed and
    /// nothing is being looked at; typed text is kept until the cross is pressed.
    pub fn is_clean(&self) -> (r: bool)
        ensures
            r == (trim(self.input@).len() == 0 && self.checking is None && self.confirm is None
                && self.found is None),
    {
        let t = trimmed(self.input.as_str());
        t.len() == 0 && self.checking.is_none() && self.confirm.is_none() && self.found.is_none()
    }

    /// More options, or fewer.
    pub fn toggle_add_more(&mut self)
        ensures
            *final(self) == (AddSheet { more: !old(self).more, ..*old(self) }),
    {
        self.more = !self.more;
    }

    /// Details of a problem, shown or put away.
    pub fn toggle_add_details(&mut self)
        ensures
            *final(self) == (AddSheet { details: !old(self).details, ..*old(self) }),
    {
        self.details = !self.details;
    }

    /// Back from the third screen to the second.
    pub fn stop_asking(&mut self)
        ensures
            *final(self) == (AddSheet { asking: false, problem: None, ..*old(self) }),
    {
        self.asking = false;
        self.problem = None;
    }

    /// The folder forgotten: the download folder again.
    pub fn clear_add_folder(&mut self)
        ensures
            *final(self) == (AddSheet { folder: None, ..*old(self) }),
    {
        self.folder = None;
    }

    /// The folder the system's picker chose.
    pub fn choose_add_folder(&mut self, folder: String)
        ensures
            *final(self) == (AddSheet { folder: Some(folder), ..*old(self) }),
    {
        self.folder = Some(folder);
    }

    /// Back to the address, forgetting the file and what was filled in from it: its name and
    /// its range. What was typed by hand -- the checksum, the limit, the folder -- stays.
    pub fn back_to_address(&mut self)
        ensures
            final(self).found is None && final(self).confirm is None && final(self).problem is None,
            !final(self).more,
            final(self).name@.len() == 0 && final(self).range_start@.len() == 0
                && final(self).range_end@.len() == 0,
            final(self).input == old(self).input && final(self).checking == old(self).checking,
            final(self).details == old(self).details && final(self).checksum == old(
                self,
            ).checksum,
            final(self).folder == old(self).folder && final(self).limit == old(self).limit,
            final(self).resolving == old(self).resolving && final(self).resolved == old(
                self,
            ).resolved,
            final(self).filled_checksum == old(self).filled_checksum && final(self).asking == old(
                self,
            ).asking,
    {
        self.found = None;
        self.confirm = None;
        self.problem = None;
        self.more = false;
        self.name = String::new();
        self.range_start = String::new();
        self.range_end = String::new();
    }

    /// The file the second screen is about, and the fields a look can fill filled from it
    /// where they are empty: the name the server gives, and the whole file as the range when
    /// the server said its size and serves parts, so a part is asked for by moving an end.
    /// `resolving` says whether the rules were set to work it out.
    pub fn accept(&mut self, found: Found, resolving: bool)
        ensures
            accepts(*old(self), *final(self), found, resolving),
    {
        if trimmed(self.name.as_str()).len() == 0 {
            self.name = found.file_name.clone();
        }
        if found.ranges {
            if let Some(size) = found.size {
                if trimmed(self.range_start.as_str()).len() == 0 {
                    self.range_start = String::from_str("0");
                }
                if trimmed(self.range_end.as_str()).len() == 0 {
                    let digits = decimal_chars(size);
                    self.range_end = string_from_chars(digits.as_slice());
                }
            }
        }
        self.resolving = resolving;
        self.resolved = None;
        self.asking = false;
        self.found = Some(found);
        self.confirm = None;
        self.problem = None;
        self.details = false;
    }
    /// Download anyway, for a page, a script or a stylesheet: on to the second screen with it.
    pub fn download_anyway(&mut self, resolving: bool)
        ensures
            old(self).confirm is None ==> *final(self) == *old(self),
            old(self).confirm is Some ==> accepts(
                *old(self),
                *final(self),
                old(self).confirm->0.found,
                resolving,
            ),
    {
        let confirm = self.confirm.take();
        match confirm {
            Some(confirm) => self.accept(confirm.found, resolving),
            None => {},
        }
    }

    /// The engine's answer about the address that was being looked at. A file moves on to the
    /// second screen; a page, a script or a stylesheet is asked about; a failure stays on the
    /// first screen, said in a line.
    pub fn answered(&mut self, answer: Answer, resolving: bool)
        ensures
            final(self).checking is None,
            match answer {
                Answer::File(found) => accepts(
                    (AddSheet { checking: None, ..*old(self) }),
                    *final(self),
                    found,
                    resolving,
                ),
                Answer::Page { found, kind, links } => {
                    &&& final(self).confirm matches Some(c) && c.found == found && c.kind == kind
                        && c.links == links && c.added@.len() == 0
                    &&& *final(self) == (AddSheet {
                        confirm: final(self).confirm,
                        checking: None,
                        ..*old(self)
                    })
                },
                Answer::Failed { summary, detail } => *final(self) == (AddSheet {
                    problem: Some(Problem { summary, detail: Some(detail) }),
                    checking: None,
                    ..*old(self)
                }),
            },
    {
        self.checking = None;
        match answer {
            Answer::File(found) => self.accept(found, resolving),
            Answer::Page { found, kind, links } => {
                self.confirm = Some(Confirm { found, kind, links, added: Vec::new() });
            },
            Answer::Failed { summary, detail } => {
                self.problem = Some(Problem { summary, detail: Some(detail) });
            },
        }
    }

    /// The rules' answer about the file: kept for Download, and the checksum it found written
    /// into the checksum field, as `algorithm:hex`, when that is empty, so it is seen and can
    /// be cleared; the text filled in is remembered.
    pub fn rules_answered(&mut self, resolved: Resolved)
        ensures
            final(self).resolved == Some(resolved),
            !final(self).resolving,
            match resolved.checksum {
                Some((algorithm, hex)) => if trim(old(self).checksum@).len() == 0 {
                    &&& final(self).checksum@ == algorithm@ + ":"@ + hex@
                    &&& final(self).filled_checksum == Some(final(self).checksum)
                } else {
                    &&& final(self).checksum == old(self).checksum
                    &&& final(self).filled_checksum == old(self).filled_checksum
                },
                None => final(self).checksum == old(self).checksum && final(self).filled_checksum
                    == old(self).filled_checksum,
            },
            *final(self) == (AddSheet {
                checksum: final(self).checksum,
                filled_checksum: final(self).filled_checksum,
                resolving: false,
                resolved: Some(resolved),
                ..*old(self)
            }),
    {
        if let Some((algorithm, hex)) = &resolved.checksum {
            if trimmed(self.checksum.as_str()).len() == 0 {
                let mut text = algorithm.clone();
                text.append(":");
                text.append(hex.as_str());
                self.checksum = text.clone();
                self.filled_checksum = Some(text);
            }
        }
        self.resolving = false;
        self.resolved = Some(resolved);
    }

    /// One of the files a page links to, taken once: the link, and the page it came from as
    /// its source; None when there is no such link or it was taken already. The sheet stays
    /// up so several can be taken.
    pub fn add_link(&mut self, index: usize) -> (r: Option<(String, String, String)>)
        ensures
            match old(self).confirm {
                None => r is None && *final(self) == *old(self),
                Some(c) => if index < c.links@.len() && !c.added@.contains(index) {
                    &&& r matches Some((url, name, source)) && url == c.links@[index as int].url
                        && name == c.links@[index as int].name && source == c.found.url
                    &&& final(self).confirm matches Some(d) && d.added@ == c.added@.push(index)
                        && d.found == c.found && d.links == c.links && d.kind == c.kind
                    &&& *final(self) == (AddSheet { confirm: final(self).confirm, ..*old(self) })
                } else {
                    r is None && *final(self) == *old(self)
                },
            },
    {
        let taken = match &self.confirm {
            None => return None,
            Some(confirm) => {
                if index >= confirm.links.len() {
                    return None;
                }
                let mut seen = false;
                let mut i: usize = 0;
                while i < confirm.added.len()
                    invariant
                        i <= confirm.added@.len(),
                        seen == exists|j: int| 0 <= j < i && confirm.added@[j] == index,
                    decreases confirm.added.len() - i,
                {
                    if confirm.added[i] == index {
                        seen = true;
                    }
                    i = i + 1;
                }
                if seen {
                    return None;
                }
                let link = &confirm.links[index];
                (link.url.clone(), link.name.clone(), confirm.found.url.clone())
            },
        };
        let mut confirm = self.confirm.take().unwrap();
        confirm.added.push(index);
        self.confirm = Some(confirm);
        Some(taken)
    }

    /// Where the download goes besides its source; see `plan_of`. `has_checksum` says whether
    /// what was asked has a checksum.
    pub fn mirrors_for(&self, has_checksum: bool) -> (r: MirrorPlan)
        ensures
            r == plan_of(*self, has_checksum),
    {
        match &self.resolved {
            None => MirrorPlan::Source,
            Some(resolved) => {
                if resolved.choice == Some(Choice::Never) {
                    MirrorPlan::Source
                } else if has_checksum {
                    let written = trimmed(self.checksum.as_str());
                    let written = string_from_chars(written.as_slice());
                    let typed = match &self.filled_checksum {
                        Some(filled) => !(*filled == written),
                        None => true,
                    };
                    MirrorPlan::Usable { typed }
                } else if resolved.mirrors.len() == 0 || resolved.choice == Some(Choice::Auto) {
                    MirrorPlan::Source
                } else {
                    MirrorPlan::Ask
                }
            },
        }
    }

    /// What the second screen's fields ask for, read and checked; see `asked_of`.
    /// `checksum_ok` says whether the checksum field, trimmed, reads as a checksum.
    pub fn asked(&self, connections: Option<u16>, checksum_ok: bool) -> (r: Result<Asked, String>)
        ensures
            match r {
                Ok(asked) => {
                    &&& asked_of(*self, checksum_ok) matches Ok((checksum, range))
                    &&& asked.connections == connections
                    &&& asked.directory == self.folder
                    &&& match asked.checksum {
                        Some(c) => checksum == Some(c@),
                        None => checksum is None,
                    }
                    &&& match asked.range {
                        Some(p) => range == Some(p@),
                        None => range is None,
                    }
                },
                Err(e) => asked_of(*self, checksum_ok) == Err::<
                    (Option<Seq<char>>, Option<Seq<char>>),
                    Seq<char>,
                >(e@),
            },
    {
        let c = trimmed(self.checksum.as_str());
        if c.len() > 0 && !checksum_ok {
            return Err(String::from_str("A checksum is sha256, sha512 or md5, written in hex."));
        }
        let checksum = if c.len() > 0 {
            Some(string_from_chars(c.as_slice()))
        } else {
            None
        };
        let size = match &self.found {
            Some(f) => f.size,
            None => None,
        };
        let start = string_from_chars(trimmed(self.range_start.as_str()).as_slice());
        let end = string_from_chars(trimmed(self.range_end.as_str()).as_slice());
        let range = match part_of_file(start.as_str(), end.as_str(), size) {
            Ok(range) => range,
            Err(e) => return Err(e),
        };
        if range.is_some() && checksum.is_some() {
            return Err(
                String::from_str("A checksum is for the whole file; clear it to download a part."),
            );
        }
        let folder = match &self.folder {
            Some(f) => Some(f.clone()),
            None => None,
        };
        Ok(Asked { connections, directory: folder, checksum, range })
    }

    /// Enter, Continue or Download. On the first screen the trimmed address is handed to the
    /// engine to look at, or refused; an empty field does nothing. On the second, what the
    /// fields ask for is checked, and the file is queued -- unless a mirror needs asking
    /// about first, which opens the third screen.
    pub fn submit(&mut self, connections: Option<u16>, checksum_ok: bool) -> (r: Submit)
        ensures
            old(self).found is Some ==> match asked_of(*old(self), checksum_ok) {
                Err(e) => {
                    &&& r is Nothing
                    &&& final(self).problem matches Some(p) && p.summary@ == e && p.detail is None
                    &&& *final(self) == (AddSheet { problem: final(self).problem, ..*old(self) })
                },
                Ok((checksum, range)) => {
                    let plan = plan_of(*old(self), checksum is Some);
                    if plan == MirrorPlan::Ask {
                        r is Nothing && *final(self) == (AddSheet {
                            asking: true,
                            problem: None,
                            ..*old(self)
                        })
                    } else {
                        &&& r matches Submit::Download { asked, plan: p } && p == plan
                            && asked.connections == connections && asked.directory == old(
                            self,
                        ).folder && (match asked.checksum {
                            Some(c) => checksum == Some(c@),
                            None => checksum is None,
                        }) && (match asked.range {
                            Some(p) => range == Some(p@),
                            None => range is None,
                        })
                        &&& *final(self) == *old(self)
                    }
                },
            },
            old(self).found is None ==> {
                let t = trim(old(self).input@);
                if t.len() == 0 {
                    r is Nothing && *final(self) == *old(self)
                } else {
                    &&& *final(self) == (AddSheet {
                        details: false,
                        confirm: None,
                        problem: final(self).problem,
                        checking: final(self).checking,
                        ..*old(self)
                    })
                    &&& match address_of(t) {
                        None => {
                            &&& r is Nothing
                            &&& final(self).problem matches Some(p) && p.summary@
                                == not_an_address() && p.detail is None
                            &&& final(self).checking == old(self).checking
                        },
                        Some(a) => r matches Submit::Inspect(url) && url@ == a
                            && final(self).problem is None && final(self).checking == Some(url),
                    }
                }
            },
    {
        if self.found.is_some() {
            let asked = match self.asked(connections, checksum_ok) {
                Ok(asked) => asked,
                Err(message) => {
                    self.problem = Some(Problem { summary: message, detail: None });
                    return Submit::Nothing;
                },
            };
            let plan = self.mirrors_for(asked.checksum.is_some());
            if plan == MirrorPlan::Ask {
                self.asking = true;
                self.problem = None;
                return Submit::Nothing;
            }
            return Submit::Download { asked, plan };
        }
        let t = trimmed(self.input.as_str());
        if t.len() == 0 {
            return Submit::Nothing;
        }
        let text = string_from_chars(t.as_slice());
        proof {
            crate::text::lemma_trim_twice(self.input@);
        }
        self.details = false;
        self.confirm = None;
        match parse_address(text.as_str()) {
            None => {
                self.problem = Some(
                    Problem { summary: String::from_str("That is not a web address."), detail: None },
                );
                Submit::Nothing
            },
            Some(url) => {
                self.problem = None;
                self.checking = Some(url.clone());
                Submit::Inspect(url)
            },
        }
    }

    /// A range handle moved to the byte `at` it stands for: which field changes -- the first
    /// byte's for the first handle, the end's otherwise -- and the bytes it then says: a byte
    /// short of the other end, and an end never past the file. A field that is no number
    /// counts as the file's start or its end. None while the file's size is unknown.
    pub fn slide_range(&self, handle: usize, at: u64) -> (r: Option<(usize, u64)>)
        requires
            handle != 0 ==> unsigned_of(trim(self.range_start@), u64::MAX as nat) != Some(
                u64::MAX as nat,
            ),
        ensures
            match self.found {
                Some(f) if f.size is Some => {
                    let size = f.size->0;
                    let start: nat = match unsigned_of(trim(self.range_start@), u64::MAX as nat) {
                        Some(n) => n,
                        None => 0,
                    };
                    let end: nat = match unsigned_of(trim(self.range_end@), u64::MAX as nat) {
                        Some(n) => n,
                        None => size as nat,
                    };
                    if handle == 0 {
                        let below: nat = if end > 0 {
                            (end - 1) as nat
                        } else {
                            0
                        };
                        r == Some((0usize, if at <= below {
                            at
                        } else {
                            below as u64
                        }))
                    } else {
                        let least: nat = if at >= start + 1 {
                            at as nat
                        } else {
                            start + 1
                        };
                        r == Some((1usize, if least <= size {
                            least as u64
                        } else {
                            size
                        }))
                    }
                },
                _ => r is None,
            },
    {
        let size = match &self.found {
            Some(f) => match f.size {
                Some(s) => s,
                None => return None,
            },
            None => return None,
        };
        let start = match parse_unsigned(trimmed(self.range_start.as_str()).as_slice(), u64::MAX) {
            Some(n) => n,
            None => 0,
        };
        let end = match parse_unsigned(trimmed(self.range_end.as_str()).as_slice(), u64::MAX) {
            Some(n) => n,
            None => size,
        };
        if handle == 0 {
            let below = if end > 0 {
                end - 1
            } else {
                0
            };
            Some((0, if at < below {
                at
            } else {
                below
            }))
        } else {
            let least = if at > start + 1 {
                at
            } else {
                start + 1
            };
            Some((1, if least < size {
                least
            } else {
                size
            }))
        }
    }

    /// Where the range handles stand, as the bytes they mark: the two fields read as numbers,
    /// the first byte's counting as the file's start and the end's as its end when it is no
    /// number, each held to the file, and the lower first. None while the file's size is unknown
    /// or nothing.
    pub fn follow_range(&self) -> (r: Option<(u64, u64)>)
        ensures
            match self.found {
                Some(f) if f.size is Some && f.size->0 > 0 => {
                    let size = f.size->0 as nat;
                    let read_start: nat = match unsigned_of(trim(self.range_start@), u64::MAX as nat) {
                        Some(n) => n,
                        None => 0,
                    };
                    let read_end: nat = match unsigned_of(trim(self.range_end@), u64::MAX as nat) {
                        Some(n) => n,
                        None => size,
                    };
                    let start: nat = if read_start <= size { read_start } else { size };
                    let end: nat = if read_end <= size { read_end } else { size };
                    r matches Some((low, high)) && low as nat == (if start <= end { start } else { end })
                        && high as nat == (if start <= end { end } else { start })
                },
                _ => r is None,
            },
    {
        let size = match &self.found {
            Some(f) => match f.size {
                Some(s) => s,
                None => return None,
            },
            None => return None,
        };
        if size == 0 {
            return None;
        }
        let start = match parse_unsigned(trimmed(self.range_start.as_str()).as_slice(), u64::MAX) {
            Some(n) => n,
            None => 0,
        };
        let end = match parse_unsigned(trimmed(self.range_end.as_str()).as_slice(), u64::MAX) {
            Some(n) => n,
            None => size,
        };
        let start = if start <= size { start } else { size };
        let end = if end <= size { end } else { size };
        if start <= end {
            Some((start, end))
        } else {
            Some((end, start))
        }
    }

    /// The download the second screen is about, as it goes to the engine: its address, and the
    /// name typed for it -- trimmed -- or the server's when none was. None before a file was
    /// found.
    pub fn download_found(&self) -> (r: Option<(String, String)>)
        ensures
            match self.found {
                Some(f) => r matches Some((url, name)) && url == f.url && name@ == (if trim(
                    self.name@,
                ).len() == 0 {
                    f.file_name@
                } else {
                    trim(self.name@)
                }),
                None => r is None,
            },
    {
        match &self.found {
            Some(f) => {
                let typed = trimmed(self.name.as_str());
                let name = if typed.len() == 0 {
                    f.file_name.clone()
                } else {
                    string_from_chars(typed.as_slice())
                };
                Some((f.url.clone(), name))
            },
            None => None,
        }
    }
}


/// The third screen asks about a mirror only when there is one to ask about: the rules have
/// answered, found at least one mirror, were given no choice for the domain, and there is no
/// checksum. Otherwise the file goes from its source alone -- with no mirror found, among
/// others -- or, with a checksum, to the mirrors it can hold.
pub proof fn law_asked_only_about_a_mirror_there_is(sheet: AddSheet, has_checksum: bool)
    ensures
        plan_of(sheet, has_checksum) == MirrorPlan::Ask <==> (sheet.resolved matches Some(r)
            && r.mirrors@.len() > 0 && r.choice is None && !has_checksum),
        sheet.resolved is None ==> plan_of(sheet, has_checksum) == MirrorPlan::Source,
        (sheet.resolved matches Some(r) && r.mirrors@.len() == 0 && !has_checksum) ==> plan_of(
            sheet,
            has_checksum,
        ) == MirrorPlan::Source,
        (sheet.resolved matches Some(r) && r.choice != Some(Choice::Never) && has_checksum) ==> (
        plan_of(sheet, has_checksum) is Usable),
{
    if let Some(r) = sheet.resolved {
        match r.choice {
            Some(Choice::Auto) => assert(r.choice != Some(Choice::Never)),
            Some(Choice::Never) => {},
            None => assert(r.choice != Some(Choice::Never) && r.choice != Some(Choice::Auto)),
        }
    }
}

} // verus!
