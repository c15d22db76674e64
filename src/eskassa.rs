use vstd::prelude::*;
use crate::amount::Amount;
use crate::date::{Date, DateRange, format_local_date, iso_date_text};
use crate::text::{all_digits, is_digit, u32_text_value, decimal_text, parse_u32, u32_text};

verus! {

/// A session that the point-of-sale service opened for a web user.
pub struct WebLoginResponse {
    pub id: String,
    pub _type: u32,
    pub web_user_id: String,
    pub expires_date_time: String,
}

/// The settings of the logged-in account.
pub struct SettingsResponse {
    pub unit: String,
    pub control_unit_serial_number: String,
    pub machine_id: String,
}

/// A cash register.
#[derive(Clone, Debug)]
pub struct Machine {
    pub customer_name: String,
    pub name: String,
    pub id: String,
}

pub struct MachineResponse {
    pub items: Vec<Machine>,
}

/// One entry of the listing of Z-reports.
#[derive(Clone, Debug)]
pub struct ZReportListItem {
    pub id: String,
    pub number: u32,
    pub date_time: String,
    pub created_by: String,
}

#[derive(Debug)]
pub struct ZReportListResponse {
    pub items: Vec<ZReportListItem>,
}

/// One account line of a structured report.
#[derive(Debug)]
pub struct SIEReportAccount {
    pub description: String,
    pub number: String,
    pub amount: Amount,
}

/// The accounting export of a Z-report.
#[derive(Debug)]
pub struct SIEReportListItem {
    pub zreport: String,
    pub report_date_time: String,
    pub first_transaction_date_time: String,
    pub last_transaction_date_time: String,
    pub accounts: Vec<SIEReportAccount>,
}

#[derive(Debug)]
pub struct SIEReportListResponse {
    pub zreports: Vec<SIEReportListItem>,
}

/// `s` is a register code `K<digits>:<digits>` whose colon stands at `k`.
pub open spec fn is_register_code_at(s: Seq<char>, k: int) -> bool {
    &&& 1 < k < s.len() - 1
    &&& s[0] == 'K'
    &&& s[k] == ':'
    &&& all_digits(s.subrange(1, k))
    &&& all_digits(s.subrange(k + 1, s.len() as int))
}

/// Where the colon of a register code stands, if the text is one.
pub open spec fn register_code_colon(s: Seq<char>) -> Option<int> {
    if exists|k: int| is_register_code_at(s, k) {
        Some(choose|k: int| is_register_code_at(s, k))
    } else {
        None
    }
}

/// The title of the ledger entry for a report: `Kassa <line>, Z-Rapport
/// #<sequence>` for a register code, else the code itself.
pub open spec fn report_title(code: Seq<char>) -> Seq<char> {
    match register_code_colon(code) {
        Some(k) => "Kassa "@ + code.subrange(1, k) + ", Z-Rapport #"@ + code.subrange(k + 1, code.len() as int),
        None => code,
    }
}

/// The sequence number of a report: the digits after the colon of a register
/// code, else the whole code read as a number.
pub open spec fn report_number(code: Seq<char>) -> Option<u32> {
    match register_code_colon(code) {
        Some(k) => u32_text_value(code.subrange(k + 1, code.len() as int)),
        None => u32_text_value(code),
    }
}

/// The date part of a timestamp: its first ten characters, or all of a
/// shorter text.
pub open spec fn report_date(t: Seq<char>) -> Seq<char> {
    if t.len() >= 10 { t.subrange(0, 10) } else { t }
}

/// A register code has one colon position.
pub proof fn lemma_register_colon_unique(s: Seq<char>, k1: int, k2: int)
    requires
        is_register_code_at(s, k1),
        is_register_code_at(s, k2),
    ensures
        k1 == k2,
{
    if k1 < k2 {
        assert(s.subrange(1, k2)[k1 - 1] == s[k1]);
    } else if k2 < k1 {
        assert(s.subrange(1, k1)[k2 - 1] == s[k2]);
    }
}

/// Finds the colon of a register code.
fn find_register_colon(s: &str) -> (r: Option<usize>)
    ensures
        match r {
            Some(k) => register_code_colon(s@) == Some(k as int),
            None => register_code_colon(s@).is_none(),
        },
{
    let n = s.unicode_len();
    if n < 4 || s.get_char(0) != 'K' {
        return None;
    }
    let mut i: usize = 1;
    while i < n && '0' <= s.get_char(i) && s.get_char(i) <= '9'
        invariant
            1 <= i <= n,
            n == s@.len(),
            forall|j: int| 1 <= j < i ==> is_digit(#[trigger] s@[j]),
        decreases n - i,
    {
        i = i + 1;
    }
    // every register code has its colon at the first non-digit after `K`
    assert forall|k: int| is_register_code_at(s@, k) implies k == i by {
        if k < i {
            assert(is_digit(s@[k]));
        } else if k > i {
            assert(s@.subrange(1, k)[i - 1] == s@[i as int]);
        }
    };
    if i == 1 || i >= n - 1 || s.get_char(i) != ':' {
        if i == 1 {
            assert forall|k: int| !is_register_code_at(s@, k) by {
                if is_register_code_at(s@, k) {
                    assert(s@.subrange(1, k)[0] == s@[1]);
                }
            };
        }
        return None;
    }
    let mut j: usize = i + 1;
    while j < n
        invariant
            i + 1 <= j <= n,
            n == s@.len(),
            forall|m: int| i + 1 <= m < j ==> is_digit(#[trigger] s@[m]),
            forall|k: int| is_register_code_at(s@, k) ==> k == i,
            i < n - 1,
            s@[i as int] == ':',
            forall|m: int| 1 <= m < i ==> is_digit(#[trigger] s@[m]),
            s@[0] == 'K',
        decreases n - j,
    {
        if !('0' <= s.get_char(j) && s.get_char(j) <= '9') {
            assert forall|k: int| !is_register_code_at(s@, k) by {
                if is_register_code_at(s@, k) {
                    assert(k == i);
                    assert(s@.subrange(k + 1, n as int)[j - k - 1] == s@[j as int]);
                }
            };
            return None;
        }
        j = j + 1;
    }
    assert(is_register_code_at(s@, i as int));
    proof {
        let c = choose|k: int| is_register_code_at(s@, k);
        lemma_register_colon_unique(s@, c, i as int);
    }
    Some(i)
}

impl SIEReportListItem {
    /// The title of the ledger entry that books this report.
    pub fn verifikatnamn(&self) -> (r: String)
        ensures
            r@ == report_title(self.zreport@),
    {
        let code = self.zreport.as_str();
        match find_register_colon(code) {
            Some(k) => {
                let n = code.unicode_len();
                let mut r = String::from_str("Kassa ");
                r.append(code.substring_char(1, k));
                r.append(", Z-Rapport #");
                r.append(code.substring_char(k + 1, n));
                r
            },
            None => self.zreport.clone(),
        }
    }

    /// The sequence number of this report, or `None` where its code is
    /// malformed.
    pub fn number(&self) -> (r: Option<u32>)
        ensures
            r == report_number(self.zreport@),
    {
        let code = self.zreport.as_str();
        match find_register_colon(code) {
            Some(k) => {
                let n = code.unicode_len();
                parse_u32(code.substring_char(k + 1, n))
            },
            None => parse_u32(code),
        }
    }

    /// The date of this report.
    pub fn datum(&self) -> (r: String)
        ensures
            r@ == report_date(self.report_date_time@),
    {
        let t = self.report_date_time.as_str();
        if t.unicode_len() >= 10 {
            String::from_str(t.substring_char(0, 10))
        } else {
            self.report_date_time.clone()
        }
    }

    /// The amount of the first line booked on account `nr`.
    pub fn konto(&self, nr: &str) -> (r: Option<Amount>)
        ensures
            match r {
                Some(a) => exists|i: int|
                    0 <= i < self.accounts@.len() && #[trigger] self.accounts@[i].number@ == nr@
                        && self.accounts@[i].amount == a
                        && forall|j: int| 0 <= j < i ==> self.accounts@[j].number@ != nr@,
                None => forall|i: int|
                    0 <= i < self.accounts@.len() ==> #[trigger] self.accounts@[i].number@ != nr@,
            },
    {
        let key = String::from_str(nr);
        let mut i: usize = 0;
        while i < self.accounts.len()
            invariant
                i <= self.accounts@.len(),
                key@ == nr@,
                forall|j: int| 0 <= j < i ==> self.accounts@[j].number@ != nr@,
            decreases self.accounts@.len() - i,
        {
            if self.accounts[i].number == key {
                return Some(self.accounts[i].amount);
            }
            i = i + 1;
        }
        None
    }
}

/// The machine whose id is `machine_id`, from the service's list, or a
/// machine named `kassa` with no customer name where the list has none.
pub open spec fn machine_for(items: Seq<Machine>, machine_id: Seq<char>, r: Machine) -> bool {
    if exists|i: int| 0 <= i < items.len() && #[trigger] items[i].id@ == machine_id {
        exists|i: int|
            0 <= i < items.len() && #[trigger] items[i].id@ == machine_id && r == items[i]
                && forall|j: int| 0 <= j < i ==> items[j].id@ != machine_id
    } else {
        r.customer_name@.len() == 0 && r.name@ == "kassa"@ && r.id@ == machine_id
    }
}

fn copy_machine(m: &Machine) -> (r: Machine)
    ensures
        r == *m,
{
    Machine { customer_name: m.customer_name.clone(), name: m.name.clone(), id: m.id.clone() }
}

/// Picks the machine that the account's settings name.
pub fn machine_for_id(items: &Vec<Machine>, machine_id: String) -> (r: Machine)
    ensures
        machine_for(items@, machine_id@, r),
{
    let mut i: usize = 0;
    while i < items.len()
        invariant
            i <= items@.len(),
            forall|j: int| 0 <= j < i ==> items@[j].id@ != machine_id@,
        decreases items@.len() - i,
    {
        if items[i].id == machine_id {
            return copy_machine(&items[i]);
        }
        i = i + 1;
    }
    proof {
        reveal_strlit("");
    }
    Machine { customer_name: String::from_str(""), name: String::from_str("kassa"), id: machine_id }
}

/// What `urlencoding::encode` makes of a text.
pub uninterp spec fn url_encoded(s: Seq<char>) -> Seq<char>;

/// Relies on `urlencoding::encode`: percent-encodes a text for a query.
#[verifier::external_body]
fn url_encode(s: &str) -> (r: String)
    ensures
        r@ == url_encoded(s@),
{
    urlencoding::encode(s).into_owned()
}

/// The first second of a day, `YYYY-MM-DDT00:00:00`.
pub open spec fn start_of_day_text(d: Date) -> Seq<char> {
    iso_date_text(d.days) + "T00:00:00"@
}

/// The last second of a day, `YYYY-MM-DDT23:59:59`.
pub open spec fn end_of_day_text(d: Date) -> Seq<char> {
    iso_date_text(d.days) + "T23:59:59"@
}

fn start_of_day(d: Date) -> (r: String)
    ensures
        r@ == start_of_day_text(d),
{
    let mut r = format_local_date(&d);
    r.append("T00:00:00");
    r
}

fn end_of_day(d: Date) -> (r: String)
    ensures
        r@ == end_of_day_text(d),
{
    let mut r = format_local_date(&d);
    r.append("T23:59:59");
    r
}

/// The names of the local files that the import of a report writes.
pub struct ReportArtifacts {
    /// The printable document.
    pub pdf: String,
    /// The raw structured export.
    pub sie4: String,
    /// The structured report as the service listed it.
    pub json: String,
    /// The request that creates the ledger entry.
    pub request_json: String,
    /// The ledger entry that was created.
    pub entry_json: String,
}

/// The point-of-sale service as seen by the library: its address and the
/// register that the session works on.
pub struct DinKassa {
    pub base_url: String,
    pub machine: Machine,
}

/// The file name stem of a report's local artifacts:
/// `Z<number>_<register>` and, where there is one, `_<customer>`.
pub open spec fn report_basename(number: u32, machine: Machine) -> Seq<char> {
    let stem = "Z"@ + decimal_text(number as nat) + "_"@ + machine.name@;
    if machine.customer_name@.len() == 0 { stem } else { stem + "_"@ + machine.customer_name@ }
}

impl DinKassa {
    pub fn new(base_url: &str, machine: Machine) -> (r: DinKassa)
        ensures
            r.base_url@ == base_url@,
            r.machine == machine,
    {
        DinKassa { base_url: String::from_str(base_url), machine }
    }

    /// Where the Z-reports of a window are listed.
    pub fn zreports_url(&self, dates: &DateRange) -> (r: String)
        ensures
            r@ == self.base_url@ + "/reports/get-z-reports?machineId="@ + self.machine.id@
                + "&startDateTime="@ + url_encoded(start_of_day_text(dates.start_date))
                + "&endDateTime="@ + url_encoded(end_of_day_text(dates.end_date)),
    {
        let mut r = self.base_url.clone();
        r.append("/reports/get-z-reports?machineId=");
        r.append(self.machine.id.as_str());
        r.append("&startDateTime=");
        let start = url_encode(start_of_day(dates.start_date).as_str());
        r.append(start.as_str());
        r.append("&endDateTime=");
        let end = url_encode(end_of_day(dates.end_date).as_str());
        r.append(end.as_str());
        r
    }

    /// Where the structured reports of a window are listed.
    pub fn sie_reports_url(&self, dates: &DateRange) -> (r: String)
        ensures
            r@ == self.base_url@ + "/reports/download-z-report-by-date/json?machineId="@ + self.machine.id@
                + "&startDate="@ + iso_date_text(dates.start_date.days)
                + "&endDate="@ + iso_date_text(dates.end_date.days),
    {
        let mut r = self.base_url.clone();
        r.append("/reports/download-z-report-by-date/json?machineId=");
        r.append(self.machine.id.as_str());
        r.append("&startDate=");
        let start = format_local_date(&dates.start_date);
        r.append(start.as_str());
        r.append("&endDate=");
        let end = format_local_date(&dates.end_date);
        r.append(end.as_str());
        r
    }

    /// Where the printable document of a report is fetched.
    pub fn zreport_pdf_url(&self, report_id: &str) -> (r: String)
        ensures
            r@ == self.base_url@ + "/reports/download-z-report/"@ + self.machine.id@ + "/"@ + report_id@,
    {
        let mut r = self.base_url.clone();
        r.append("/reports/download-z-report/");
        r.append(self.machine.id.as_str());
        r.append("/");
        r.append(report_id);
        r
    }

    /// Where the raw structured export of a report is fetched.
    pub fn zreport_sie_url(&self, report_id: &str) -> (r: String)
        ensures
            r@ == self.base_url@ + "/reports/download-z-report/"@ + self.machine.id@ + "/"@ + report_id@
                + "/sie4"@,
    {
        let mut r = self.zreport_pdf_url(report_id);
        r.append("/sie4");
        r
    }

    /// The names of the local files of a report: its stem with the
    /// extensions `.pdf`, `.si`, `.json`, `.bokio.json` and `.verifikat.json`.
    pub fn zreport_artifacts(&self, report: &ZReportListItem) -> (r: ReportArtifacts)
        ensures
            r.pdf@ == report_basename(report.number, self.machine) + ".pdf"@,
            r.sie4@ == report_basename(report.number, self.machine) + ".si"@,
            r.json@ == report_basename(report.number, self.machine) + ".json"@,
            r.request_json@ == report_basename(report.number, self.machine) + ".bokio.json"@,
            r.entry_json@ == report_basename(report.number, self.machine) + ".verifikat.json"@,
    {
        let stem = self.zreport_basename(report);
        ReportArtifacts {
            pdf: stem.clone().concat(".pdf"),
            sie4: stem.clone().concat(".si"),
            json: stem.clone().concat(".json"),
            request_json: stem.clone().concat(".bokio.json"),
            entry_json: stem.concat(".verifikat.json"),
        }
    }

    /// The file name stem of the local artifacts of a report.
    pub fn zreport_basename(&self, report: &ZReportListItem) -> (r: String)
        ensures
            r@ == report_basename(report.number, self.machine),
    {
        let mut r = String::from_str("Z");
        let num = u32_text(report.number);
        r.append(num.as_str());
        r.append("_");
        r.append(self.machine.name.as_str());
        if self.machine.customer_name.as_str().unicode_len() > 0 {
            r.append("_");
            r.append(self.machine.customer_name.as_str());
        }
        r
    }
}

} // verus!
