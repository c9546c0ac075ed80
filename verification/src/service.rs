use vstd::prelude::*;
use vstd::string::StringExecFns;

use crate::adapter::adapted;
use crate::adapter::convert_ocr_result;
use crate::engine::EngineResult;
use crate::engine::result_in_pixel_range;
use crate::model::OcrRecognitionResult;

verus! {

/// Maps the platform's language-enumeration outcome to the caller-facing
/// result: a successful query hands the tags through unchanged, in engine
/// order, unfiltered and unsorted; a failed query becomes a single error
/// whose message names the failing step. The unverified shell performs the
/// platform query itself and passes its outcome here.
pub fn get_available_languages(query: Result<Vec<String>, String>) -> (r: Result<
    Vec<String>,
    String,
>)
    ensures
        r is Ok <==> query is Ok,
        query matches Ok(tags) ==> r matches Ok(out) && out@ == tags@,
        query matches Err(m) ==> r matches Err(msg) && msg@ == "failed to query available OCR languages: "@
            + m@,
{
    match query {
        Ok(tags) => Ok(tags),
        Err(m) => {
            let mut msg = String::from_str("failed to query available OCR languages: ");
            msg.append(m.as_str());
            Err(msg)
        },
    }
}

/// Maps the platform's recognition outcome to the caller-facing result: a
/// successful run is flattened through `convert_ocr_result`, a failure at
/// any stage (decode, language resolution, engine creation, recognition)
/// becomes a single error whose message carries the platform's detail.
pub fn recognition_outcome(query: Result<EngineResult, String>) -> (r: Result<
    OcrRecognitionResult,
    String,
>)
    requires
        query matches Ok(e) ==> result_in_pixel_range(e),
    ensures
        r is Ok <==> query is Ok,
        query matches Ok(e) ==> r matches Ok(res) && adapted(e, res),
        query matches Err(m) ==> r matches Err(msg) && msg@ == "OCR recognition failed: "@ + m@,
{
    match query {
        Ok(e) => Ok(convert_ocr_result(&e)),
        Err(m) => {
            let mut msg = String::from_str("OCR recognition failed: ");
            msg.append(m.as_str());
            Err(msg)
        },
    }
}

/// The error message for a recognition request whose file path does not
/// resolve to an existing file; the check happens before any decode
/// attempt is made.
pub fn not_found_message(path: &str) -> (msg: String)
    ensures
        msg@ == "file not found: "@ + path@,
{
    let mut msg = String::from_str("file not found: ");
    msg.append(path);
    msg
}

} // verus!
