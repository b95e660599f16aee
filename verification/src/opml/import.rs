//! How the entries of an OPML document become stored folders and feeds.

use vstd::prelude::*;
use vstd::string::*;

use crate::codec;
use crate::error;
use crate::error::{ApiError, ApiResult, ErrorKind};
use crate::ids::Uuid;
use crate::opml::document::OpmlOutline;
use crate::text;

verus! {

/// The body of an import request in JSON.
#[derive(Debug)]
pub struct ImportOpmlJsonRequest {
    /// The document in standard base64.
    pub content: String,
}

/// The answer to an import request.
#[derive(Debug)]
pub struct ImportOpmlResponse {
    pub data: ImportResult,
}

/// What an import did.
#[derive(Debug)]
pub struct ImportResult {
    pub feeds_imported: i64,
    pub feeds_skipped: i64,
    pub folders_created: i64,
    pub errors: Vec<ImportError>,
}

/// Why one entry was not imported.
#[derive(Debug)]
pub struct ImportError {
    pub url: String,
    pub reason: String,
}

/// The bytes of the document in an import request, from what came of decoding them.
pub fn decoded_content(decoded: Result<Vec<u8>, String>) -> (res: ApiResult<Vec<u8>>)
    ensures
        match decoded {
            Ok(bytes) => res == Ok::<Vec<u8>, ApiError>(bytes),
            Err(reason) => error::fails(
                res,
                ErrorKind::BadRequest,
                "Invalid base64: "@ + reason@,
            ),
        },
{
    match decoded {
        Ok(bytes) => Ok(bytes),
        Err(reason) => {
            let mut message: String = "Invalid base64: ".to_string();
            message.append(reason.as_str());
            Err(ApiError::BadRequest(message))
        },
    }
}

/// The bytes of the document in an import request: decoded from the body where it is JSON,
/// else the body itself.
pub fn import_content(json: &Option<ImportOpmlJsonRequest>, body: Vec<u8>) -> (res: ApiResult<
    Vec<u8>,
>)
    ensures
        match json {
            Some(request) => match codec::standard_decoded(request.content@) {
                Ok(bytes) => res matches Ok(content) && content@ == bytes,
                Err(reason) => error::fails(
                    res,
                    ErrorKind::BadRequest,
                    "Invalid base64: "@ + reason,
                ),
            },
            None => res matches Ok(content) && content@ == body@,
        },
{
    match json {
        Some(request) => decoded_content(codec::decode_standard(request.content.as_str())),
        None => Ok(body),
    }
}

/// What is said of an import that goes over the limit.
pub open spec fn over_limit_text(current: int, new: int, max: int) -> Seq<char> {
    "Import would exceed feed limit ("@ + text::decimal(current) + " existing + "@
        + text::decimal(new) + " new > "@ + text::decimal(max)
        + " max). Upgrade or import fewer feeds."@
}

/// An import is refused where the feeds that are there and the new ones are together more
/// than the limit.
pub fn check_import_limit(current: i64, new: i64, max: i64) -> (res: ApiResult<()>)
    ensures
        res is Ok <==> current + new <= max,
        res is Err ==> error::fails(
            res,
            ErrorKind::Forbidden,
            over_limit_text(current as int, new as int, max as int),
        ),
{
    if current as i128 + new as i128 > max as i128 {
        let mut message: String = "Import would exceed feed limit (".to_string();
        message.append(text::number_to_text(current).as_str());
        message.append(" existing + ");
        message.append(text::number_to_text(new).as_str());
        message.append(" new > ");
        message.append(text::number_to_text(max).as_str());
        message.append(" max). Upgrade or import fewer feeds.");
        Err(ApiError::Forbidden(message))
    } else {
        Ok(())
    }
}

/// One entry to be stored. `parent` is the place, among the entries to be stored, of the
/// folder that it goes into.
#[derive(Debug)]
pub enum ImportStep {
    Feed { url: String, title: String, html_url: Option<String>, parent: Option<usize> },
    Folder { name: String, parent: Option<usize> },
}

/// What is known of one entry to be stored.
#[verifier::ext_equal]
pub enum StepView {
    Feed {
        url: Seq<char>,
        title: Seq<char>,
        html_url: Option<Seq<char>>,
        parent: Option<usize>,
    },
    Folder { name: Seq<char>, parent: Option<usize> },
}

impl View for ImportStep {
    type V = StepView;

    open spec fn view(&self) -> StepView {
        match self {
            ImportStep::Feed { url, title, html_url, parent } => StepView::Feed {
                url: url@,
                title: title@,
                html_url: text::view_opt(*html_url),
                parent: *parent,
            },
            ImportStep::Folder { name, parent } => StepView::Folder {
                name: name@,
                parent: *parent,
            },
        }
    }
}

impl ImportStep {
    /// The place of the folder that the entry goes into.
    pub open spec fn parent_of(self) -> Option<usize> {
        match self {
            ImportStep::Feed { parent, .. } => parent,
            ImportStep::Folder { parent, .. } => parent,
        }
    }
}

/// What is known of several entries to be stored.
pub open spec fn step_views(steps: Seq<ImportStep>) -> Seq<StepView> {
    steps.map_values(|s: ImportStep| s@)
}

/// The entries to be stored for an entry of the document, the first of them at the place
/// `at`. A feed is stored alone, a folder before everything in it, and what is neither a
/// feed nor holds anything is left out.
pub open spec fn steps_of(o: OpmlOutline, at: nat, parent: Option<usize>) -> Seq<StepView>
    decreases o, 0nat,
{
    match o.xml_url {
        Some(url) => seq![
            StepView::Feed {
                url: url@,
                title: match o.title {
                    Some(title) => title@,
                    None => o.text@,
                },
                html_url: text::view_opt(o.html_url),
                parent,
            },
        ],
        None => if o.children@.len() == 0 {
            Seq::empty()
        } else {
            seq![StepView::Folder { name: o.text@, parent }] + steps_in(
                o.children@,
                o.children@.len(),
                at + 1,
                Some(at as usize),
            )
        },
    }
}

/// The entries to be stored for the first `n` of some entries of the document.
pub open spec fn steps_in(os: Seq<OpmlOutline>, n: nat, at: nat, parent: Option<usize>) -> Seq<
    StepView,
>
    decreases os, n,
{
    if n == 0 || n > os.len() {
        Seq::empty()
    } else {
        let before = steps_in(os, (n - 1) as nat, at, parent);
        before + steps_of(os[n - 1], at + before.len(), parent)
    }
}

/// Every entry goes into a folder that stands before it.
pub open spec fn parents_first(steps: Seq<ImportStep>) -> bool {
    forall|i: int|
        0 <= i < steps.len() ==> match (#[trigger] steps[i]).parent_of() {
            Some(p) => p < i && steps[p as int] is Folder,
            None => true,
        }
}

fn append_steps(steps: &mut Vec<ImportStep>, outline: &OpmlOutline, parent: Option<usize>)
    requires
        parents_first(old(steps)@),
        parent matches Some(p) ==> p < old(steps)@.len() && old(steps)@[p as int] is Folder,
    ensures
        step_views(final(steps)@) == step_views(old(steps)@) + steps_of(
            *outline,
            old(steps)@.len(),
            parent,
        ),
        parents_first(final(steps)@),
        final(steps)@.len() >= old(steps)@.len(),
        forall|i: int| 0 <= i < old(steps)@.len() ==> #[trigger] final(steps)@[i] == old(steps)@[i],
    decreases outline,
{
    let ghost before = steps@;
    match &outline.xml_url {
        Some(url) => {
            let title: String = match &outline.title {
                Some(title) => title.clone(),
                None => outline.text.clone(),
            };
            steps.push(
                ImportStep::Feed {
                    url: url.clone(),
                    title,
                    html_url: text::clone_opt(&outline.html_url),
                    parent,
                },
            );
            proof {
                assert(step_views(steps@) =~= step_views(before) + steps_of(
                    *outline,
                    before.len(),
                    parent,
                ));
            }
        },
        None => {
            if outline.children.len() > 0 {
                let at: usize = steps.len();
                steps.push(ImportStep::Folder { name: outline.text.clone(), parent });
                let ghost with_folder = steps@;
                let ghost children = outline.children@;
                let mut i: usize = 0;
                proof {
                    assert(step_views(with_folder) =~= step_views(before) + seq![
                        StepView::Folder { name: outline.text@, parent },
                    ]);
                    assert(step_views(steps@) =~= step_views(with_folder) + steps_in(
                        children,
                        0,
                        (at + 1) as nat,
                        Some(at),
                    ));
                }
                while i < outline.children.len()
                    invariant
                        children == outline.children@,
                        i <= children.len(),
                        at < steps@.len(),
                        at + 1 == with_folder.len(),
                        at == before.len(),
                        with_folder.len() <= steps@.len(),
                        parents_first(steps@),
                        with_folder[at as int] is Folder,
                        forall|k: int|
                            0 <= k < with_folder.len() ==> #[trigger] steps@[k] == with_folder[k],
                        forall|k: int|
                            0 <= k < before.len() ==> #[trigger] with_folder[k] == before[k],
                        step_views(steps@) == step_views(with_folder) + steps_in(
                            children,
                            i as nat,
                            (at + 1) as nat,
                            Some(at),
                        ),
                    decreases children.len() - i,
                {
                    proof {
                        assert(decreases_to!(outline => outline.children));
                        assert(decreases_to!(outline.children => outline.children@));
                        assert(decreases_to!(children => children[i as int]));
                    }
                    let ghost so_far = steps@;
                    append_steps(steps, &outline.children[i], Some(at));
                    proof {
                        let done = steps_in(children, i as nat, (at + 1) as nat, Some(at));
                        assert(step_views(so_far).len() == so_far.len());
                        assert(so_far.len() == at + 1 + done.len());
                        assert(step_views(steps@) =~= step_views(with_folder) + steps_in(
                            children,
                            (i + 1) as nat,
                            (at + 1) as nat,
                            Some(at),
                        ));
                    }
                    i += 1;
                }
                proof {
                    assert(step_views(steps@) =~= step_views(before) + steps_of(
                        *outline,
                        before.len(),
                        parent,
                    ));
                }
            } else {
                proof {
                    assert(step_views(steps@) =~= step_views(before) + steps_of(
                        *outline,
                        before.len(),
                        parent,
                    ));
                }
            }
        },
    }
}

/// The entries to be stored for one entry of the document, each folder before what is in
/// it.
pub fn plan_outline(outline: &OpmlOutline) -> (res: Vec<ImportStep>)
    ensures
        step_views(res@) == steps_of(*outline, 0, None),
        parents_first(res@),
{
    let mut steps: Vec<ImportStep> = Vec::new();
    append_steps(&mut steps, outline, None);
    proof {
        assert(step_views(Seq::<ImportStep>::empty()) =~= Seq::<StepView>::empty());
        assert(step_views(steps@) =~= steps_of(*outline, 0, None));
    }
    steps
}

/// The document of an import is the body of the request, or what its JSON holds in base64, and
/// text that is no base64 is refused with the reason.
pub proof fn document_is_what_was_sent(
    request: ImportOpmlJsonRequest,
    body: Vec<u8>,
    plain: ApiResult<Vec<u8>>,
    held: ApiResult<Vec<u8>>,
)
    requires
        call_ensures(import_content, (&None, body), plain),
        call_ensures(import_content, (&Some(request), body), held),
    ensures
        plain is Ok && plain->Ok_0@ == body@,
        held is Ok <==> codec::standard_decoded(request.content@) is Ok,
        held matches Ok(bytes) ==> codec::standard_decoded(request.content@)->Ok_0 == bytes@,
        held matches Err(e) ==> (e matches ApiError::BadRequest(message) && message@
            == "Invalid base64: "@ + codec::standard_decoded(request.content@)->Err_0),
{
}

/// An import goes ahead if and only if the user then has no more feeds than they may have.
pub proof fn import_stays_within_the_limit(
    current: i64,
    new: i64,
    max: i64,
    res: ApiResult<()>,
)
    requires
        call_ensures(check_import_limit, (current, new, max), res),
    ensures
        res is Err <==> current + new > max,
        res matches Err(e) ==> (e matches ApiError::Forbidden(message) && message@
            == "Import would exceed feed limit ("@ + text::decimal(current as int)
            + " existing + "@ + text::decimal(new as int) + " new > "@ + text::decimal(max as int)
            + " max). Upgrade or import fewer feeds."@),
{
}

} // verus!
