//! The whole link: from the options and the inputs to the bytes of the
//! output file.

use crate::emit::lemma_plan_laid_out;
use crate::input::{InputObject, InputObjectView};
use crate::link::{gathered, Linker};
use crate::model::{LinkError, LinkErrorView, ObjectFile};
use crate::opt::{FileOpt, LibraryOpt, ObjectFileOpt, Opt, OptView};
use crate::reader::{member_at, member_count, member_total, object_of, read_member, read_object};
use crate::text::{appended, ends_with, has_suffix, option_view, views};
use crate::writer::{arena_new, writer_finish, writer_model, writer_new, WriterModel};
use vstd::prelude::*;
use vstd::string::*;

verus! {

impl Linker {
    /// Some linker.
    pub open spec fn arbitrary() -> Linker {
        arbitrary()
    }

    /// Relocation keeps a linker ready to write.
    pub proof fn lemma_relocated_ready(&self, o: &Linker, p: WriterModel)
        requires
            o.ready_to_write(p),
            self.relocated_of(o),
        ensures
            self.ready_to_write(p),
            self.shape() == o.shape(),
    {
        reveal(Linker::ready_to_write);
        let a = self.shape();
        let b = o.shape();
        assert(a.section_lens =~= b.section_lens);
        assert(a.section_names =~= b.section_names);
        assert(a == b);
        assert(self.sections_placed(p)) by {
            assert forall|i: int| 0 <= i < self.output_sections@.len() implies {
                &&& (#[trigger] self.output_sections@[i]).offset == crate::layout::placed_at(
                    a.headers_end(),
                    a.section_lens,
                    4096,
                    i,
                )
                &&& self.output_sections@[i].section_index == Some((1 + i) as u32)
                &&& self.output_sections@[i].name_string_id is Some
                &&& crate::layout::spells(
                    self.output_sections@[i].name_string_id,
                    p.shstrtab,
                    self.output_sections@[i].name@,
                )
            } by {
                assert(o.output_sections@[i].offset == self.output_sections@[i].offset);
            }
        }
    }
}

/// A copy of an optional string.
fn copy_optional(s: &Option<String>) -> (r: Option<String>)
    ensures
        option_view(r) == option_view(*s),
{
    match s {
        Some(text) => Some(text.clone()),
        None => None,
    }
}

/// A copy of the options.
pub fn copy_opt(opt: &Opt) -> (r: Opt)
    ensures
        r@ == opt@,
{
    let mut search_dir: Vec<String> = Vec::new();
    let n = opt.search_dir.len();
    let mut i: usize = 0;
    while i < n
        invariant
            i <= n,
            n == opt.search_dir@.len(),
            views(search_dir@) =~= views(opt.search_dir@).take(i as int),
        decreases n - i,
    {
        let dir = opt.search_dir[i].clone();
        proof {
            let all = views(opt.search_dir@);
            assert(views(search_dir@.push(dir)) =~= views(search_dir@).push(dir@));
            assert(all.take(i + 1) =~= all.take(i as int).push(all[i as int]));
        }
        search_dir.push(dir);
        i += 1;
    }
    let mut obj_file: Vec<ObjectFileOpt> = Vec::new();
    let m = opt.obj_file.len();
    let mut j: usize = 0;
    while j < m
        invariant
            j <= m,
            m == opt.obj_file@.len(),
            views(obj_file@) =~= views(opt.obj_file@).take(j as int),
        decreases m - j,
    {
        let item = match &opt.obj_file[j] {
            ObjectFileOpt::File(f) => ObjectFileOpt::File(
                FileOpt { name: f.name.clone(), as_needed: f.as_needed },
            ),
            ObjectFileOpt::Library(l) => ObjectFileOpt::Library(
                LibraryOpt {
                    name: l.name.clone(),
                    as_needed: l.as_needed,
                    link_static: l.link_static,
                },
            ),
            ObjectFileOpt::StartGroup => ObjectFileOpt::StartGroup,
            ObjectFileOpt::EndGroup => ObjectFileOpt::EndGroup,
        };
        assert(item@ == opt.obj_file@[j as int]@);
        proof {
            let all = views(opt.obj_file@);
            assert(views(obj_file@.push(item)) =~= views(obj_file@).push(item@));
            assert(all.take(j + 1) =~= all.take(j as int).push(all[j as int]));
        }
        obj_file.push(item);
        j += 1;
    }
    let r = Opt {
        build_id: opt.build_id,
        eh_frame_hdr: opt.eh_frame_hdr,
        pie: opt.pie,
        shared: opt.shared,
        emulation: copy_optional(&opt.emulation),
        output: copy_optional(&opt.output),
        dynamic_linker: copy_optional(&opt.dynamic_linker),
        soname: copy_optional(&opt.soname),
        search_dir,
        hash_style: opt.hash_style,
        obj_file,
    };
    proof {
        assert(views(opt.search_dir@).take(n as int) =~= views(opt.search_dir@));
        assert(views(opt.obj_file@).take(m as int) =~= views(opt.obj_file@));
    }
    r
}

/// The state of a writer that has reserved and written nothing, over a
/// buffer that holds `sink` in the end.
pub open spec fn fresh_over(sink: Seq<u8>) -> WriterModel {
    WriterModel { sink, ..WriterModel::fresh() }
}

/// What reserving, relocating and writing come to for the linker `start`,
/// `after_reservation` and `after_relocation` being the states of the linker
/// behind those stages, and `p` the state of the writer when everything is
/// reserved.
///
/// The output is reserved as the plan of its shape says, the relocations are
/// applied at the addresses of that plan, and the output is the image of the
/// relocated state, as long as was reserved, in which every table stands
/// where the plan has it. The relocated state is ready to write: it holds the
/// places of the plan, and the string tables of the plan are laid out. The
/// first stage that fails gives the error.
pub open spec fn emits(
    start: Linker,
    after_reservation: Linker,
    after_relocation: Linker,
    p: WriterModel,
    result: Result<Seq<u8>, LinkErrorView>,
) -> bool {
    if !start.shape().reservable(fresh_over(p.sink)) {
        result == Err::<Seq<u8>, LinkErrorView>(LinkErrorView::Bug)
    } else {
        &&& p == start.shape().plan(fresh_over(p.sink))
        &&& after_reservation.kept(&start)
        &&& after_reservation.placed_in(p)
        &&& match after_reservation.relocated_sections() {
            Err(e) => result == Err::<Seq<u8>, LinkErrorView>(e),
            Ok(sections) => {
                &&& after_relocation.relocated_of(&after_reservation)
                &&& views(after_relocation.output_sections@) == sections
                &&& views(after_relocation.section_address@)
                    == after_reservation.planned_addresses()
                &&& after_relocation.ready_to_write(p)
                &&& result == after_relocation.image(p)
                &&& result is Ok ==> result->Ok_0.len() == p.reserved
                &&& result is Ok ==> after_relocation.tables_stand(result->Ok_0, p)
            },
        }
    }
}

/// What linking `objs` under `opt` comes to, `after_synthesis` being the
/// state of the linker when the inputs are gathered and the linkage tables
/// made, as `gathered` says, and the other states those of `emits`.
pub open spec fn links_to(
    opt: OptView,
    objs: Seq<InputObjectView>,
    after_synthesis: Linker,
    after_reservation: Linker,
    after_relocation: Linker,
    p: WriterModel,
    result: Result<Seq<u8>, LinkErrorView>,
) -> bool {
    match gathered(opt, objs) {
        Err(e) => result == Err::<Seq<u8>, LinkErrorView>(e),
        Ok(g) => {
            &&& after_synthesis.opt@ == opt
            &&& after_synthesis.gathered() == g
            &&& emits(after_synthesis, after_reservation, after_relocation, p, result)
        },
    }
}

/// The view of the result of a link.
pub open spec fn linked_view(r: Result<Vec<u8>, LinkError>) -> Result<Seq<u8>, LinkErrorView> {
    match r {
        Ok(bytes) => Ok(bytes@),
        Err(e) => Err(e@),
    }
}

/// Gathers the inputs and makes the linkage tables.
pub fn gather(opt: &Opt, objects: &Vec<InputObject>) -> (res: Result<Linker, LinkError>)
    ensures
        match gathered(opt@, views(objects@)) {
            Ok(g) => res is Ok && res->Ok_0.opt@ == opt@ && res->Ok_0.gathered() == g,
            Err(e) => res is Err && res->Err_0@ == e,
        },
{
    let mut linker = Linker::new(copy_opt(opt));
    match linker.add_objects(objects) {
        Err(e) => {
            return Err(e);
        },
        Ok(()) => {},
    }
    match linker.synthesize() {
        Err(e) => {
            return Err(e);
        },
        Ok(()) => {},
    }
    Ok(linker)
}

/// Reserves, relocates and writes the output of a linker that has gathered
/// its inputs.
#[verifier::rlimit(100)]
#[verifier::spinoff_prover]
pub fn emit(linker: Linker) -> (res: Result<Vec<u8>, LinkError>)
    ensures
        exists|l2: Linker, l3: Linker, p: WriterModel| #[trigger]
            emits(linker, l2, l3, p, linked_view(res)),
{
    let mut linker = linker;
    let ghost l1 = linker;
    let arena = arena_new();
    let mut buffer: Vec<u8> = Vec::new();
    let mut w = writer_new(&mut buffer);
    let ghost m0 = writer_model(w);
    assert(m0 == fresh_over(m0.sink));
    match linker.reserve(&mut w, &arena) {
        Err(e) => {
            assert(emits(l1, l1, l1, m0, Err(e@)));
            return Err(e);
        },
        Ok(()) => {},
    }
    let ghost p = writer_model(w);
    let ghost l2 = linker;
    proof {
        lemma_plan_laid_out(l1.shape(), m0);
        l2.lemma_kept_shape(&l1);
        assert(l2.ready_to_write(p)) by {
            reveal(Linker::ready_to_write);
        }
    }
    match linker.relocate() {
        Err(e) => {
            assert(emits(l1, l2, l2, p, Err(e@)));
            return Err(e);
        },
        Ok(()) => {},
    }
    let ghost l3 = linker;
    proof {
        l3.lemma_relocated_ready(&l2, p);
    }
    match linker.write(&mut w, Ghost(p)) {
        Err(e) => {
            assert(emits(l1, l2, l3, p, Err(e@)));
            return Err(e);
        },
        Ok(()) => {},
    }
    writer_finish(w);
    proof {
        let image = l3.image(p)->Ok_0;
        assert(buffer@ =~= image);
        assert(emits(l1, l2, l3, p, Ok(buffer@)));
    }
    Ok(buffer)
}

/// Links the parsed inputs into the bytes of the output file.
pub fn link_objects(opt: &Opt, objects: &Vec<InputObject>) -> (res: Result<Vec<u8>, LinkError>)
    ensures
        exists|l1: Linker, l2: Linker, l3: Linker, p: WriterModel| #[trigger]
            links_to(opt@, views(objects@), l1, l2, l3, p, linked_view(res)),
{
    let linker = match gather(opt, objects) {
        Err(e) => {
            let ghost any = Linker::arbitrary();
            assert(links_to(
                opt@,
                views(objects@),
                any,
                any,
                any,
                WriterModel::fresh(),
                Err(e@),
            ));
            return Err(e);
        },
        Ok(linker) => linker,
    };
    let ghost l1 = linker;
    let res = emit(linker);
    proof {
        let (l2, l3, p) = choose|l2: Linker, l3: Linker, p: WriterModel| #[trigger]
            emits(l1, l2, l3, p, linked_view(res));
        assert(links_to(opt@, views(objects@), l1, l2, l3, p, linked_view(res)));
    }
    res
}

impl View for ObjectFile {
    type V = (Seq<char>, Seq<u8>);

    open spec fn view(&self) -> (Seq<char>, Seq<u8>) {
        (self.name@, self.content@)
    }
}

/// The name under which a member of an archive goes: that of the archive,
/// with that of the member in brackets.
pub open spec fn member_name(archive: Seq<char>, member: Seq<char>) -> Seq<char> {
    archive + "("@ + member + ")"@
}

/// `acc`, followed by the objects in the members of the archive `name` from
/// index `k` on.
pub open spec fn members_from(name: Seq<char>, data: Seq<u8>, k: int, acc: Seq<InputObjectView>)
    -> Result<Seq<InputObjectView>, LinkErrorView>
    decreases member_total(data).unwrap_or(0) - k,
{
    if k < 0 || k >= member_total(data).unwrap_or(0) {
        Ok(acc)
    } else {
        match member_at(data, k as nat) {
            None => Err(LinkErrorView::Malformed(name)),
            Some(member) => match object_of(member_name(name, member.0), member.1) {
                Err(e) => Err(e),
                Ok(object) => members_from(name, data, k + 1, acc.push(object)),
            },
        }
    }
}

/// `acc`, followed by the objects in one file: those of its members where
/// its name ends with `.a`, itself otherwise.
pub open spec fn file_objects(file: (Seq<char>, Seq<u8>), acc: Seq<InputObjectView>) -> Result<
    Seq<InputObjectView>,
    LinkErrorView,
> {
    if has_suffix(file.0, ".a"@) {
        if member_total(file.1) is None {
            Err(LinkErrorView::Malformed(file.0))
        } else {
            members_from(file.0, file.1, 0, acc)
        }
    } else {
        match object_of(file.0, file.1) {
            Err(e) => Err(e),
            Ok(object) => Ok(acc.push(object)),
        }
    }
}

/// `acc`, followed by the objects in the files from index `i` on.
pub open spec fn objects_from(
    files: Seq<(Seq<char>, Seq<u8>)>,
    i: int,
    acc: Seq<InputObjectView>,
) -> Result<Seq<InputObjectView>, LinkErrorView>
    decreases files.len() - i,
{
    if i < 0 || i >= files.len() {
        Ok(acc)
    } else {
        match file_objects(files[i], acc) {
            Err(e) => Err(e),
            Ok(next) => objects_from(files, i + 1, next),
        }
    }
}

/// The objects in the files.
pub open spec fn parsed_files(files: Seq<(Seq<char>, Seq<u8>)>) -> Result<
    Seq<InputObjectView>,
    LinkErrorView,
> {
    objects_from(files, 0, Seq::empty())
}

/// Appends the objects in one file to `objects`.
fn parse_file(file: &ObjectFile, objects: &mut Vec<InputObject>) -> (res: Result<(), LinkError>)
    ensures
        match file_objects(file@, views(old(objects)@)) {
            Ok(all) => res is Ok && views(final(objects)@) == all,
            Err(e) => res is Err && res->Err_0@ == e,
        },
{
    if ends_with(file.name.as_str(), ".a") {
        let count = match member_count(file.content.as_slice()) {
            None => {
                return Err(LinkError::Malformed(file.name.clone()));
            },
            Some(count) => count,
        };
        let mut k: usize = 0;
        while k < count
            invariant
                k <= count,
                has_suffix(file.name@, ".a"@),
                member_total(file.content@) == Some(count as nat),
                members_from(file.name@, file.content@, 0, views(old(objects)@)) == members_from(
                    file.name@,
                    file.content@,
                    k as int,
                    views(objects@),
                ),
            decreases count - k,
        {
            let member = match read_member(file.content.as_slice(), k) {
                None => {
                    return Err(LinkError::Malformed(file.name.clone()));
                },
                Some(member) => member,
            };
            let inner = appended(appended(file.name.as_str(), "(").as_str(), member.0.as_str());
            let name = appended(inner.as_str(), ")");
            match read_object(name.as_str(), member.1.as_slice()) {
                Err(e) => {
                    return Err(e);
                },
                Ok(object) => {
                    proof {
                        assert(views(objects@.push(object)) =~= views(objects@).push(object@));
                    }
                    objects.push(object);
                },
            }
            k += 1;
        }
        Ok(())
    } else {
        match read_object(file.name.as_str(), file.content.as_slice()) {
            Err(e) => Err(e),
            Ok(object) => {
                proof {
                    assert(views(objects@.push(object)) =~= views(objects@).push(object@));
                }
                objects.push(object);
                Ok(())
            },
        }
    }
}

/// Parses the input files: an archive gives the objects in its members, any
/// other file is an object itself.
pub fn parse_files(files: &Vec<ObjectFile>) -> (res: Result<Vec<InputObject>, LinkError>)
    ensures
        match parsed_files(views(files@)) {
            Ok(objects) => res is Ok && views(res->Ok_0@) == objects,
            Err(e) => res is Err && res->Err_0@ == e,
        },
{
    let mut objects: Vec<InputObject> = Vec::new();
    let n = files.len();
    let mut i: usize = 0;
    assert(views(objects@) =~= Seq::<InputObjectView>::empty());
    while i < n
        invariant
            i <= n,
            n == files@.len(),
            objects_from(views(files@), 0, Seq::empty()) == objects_from(
                views(files@),
                i as int,
                views(objects@),
            ),
        decreases n - i,
    {
        assert(views(files@)[i as int] == files@[i as int]@);
        match parse_file(&files[i], &mut objects) {
            Err(e) => {
                return Err(e);
            },
            Ok(()) => {},
        }
        i += 1;
    }
    Ok(objects)
}

/// Links the input files into the bytes of the output file. The files are
/// parsed; then the objects in them are linked as `link_objects` does.
pub fn link(opt: &Opt, files: &Vec<ObjectFile>) -> (res: Result<Vec<u8>, LinkError>)
    ensures
        match parsed_files(views(files@)) {
            Err(e) => res is Err && res->Err_0@ == e,
            Ok(objects) => exists|l1: Linker, l2: Linker, l3: Linker, p: WriterModel| #[trigger]
                links_to(opt@, objects, l1, l2, l3, p, linked_view(res)),
        },
{
    let objects = match parse_files(files) {
        Err(e) => {
            return Err(e);
        },
        Ok(objects) => objects,
    };
    link_objects(opt, &objects)
}

} // verus!
