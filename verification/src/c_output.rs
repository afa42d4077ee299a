//! 整个 C 翻译单元：运行时辅助函数、结构体定义、函数前向声明、main（@example 自检、
//! 顶层语句、出口释放）与各函数定义（@pre 守卫、函数体、出口释放、隐式返回与 @post 校验）。

use vstd::prelude::*;
use crate::ast::{
    Ty, StructDef, FnDef, Param, Program, Stmt, SStmt, Expr, SExpr, Contract, SContract, stmts_view, contracts_view,
    exprs_view,
};
use crate::text::{push_str_chars, push_decimal, radix_text, string_of_all};
use crate::type_check::{
    FuncTable, FuncSig, FSig, Scope, TyScope, TbView, TypeTables, VarInfo, fsig_view, spec_is_owned, is_owned,
    collect_str_decls, spec_collect, strings_view,
};
use crate::checker::prog_tb;
use crate::gen_c::{
    GEnv, genv, emit_safe, spec_emit_expr, spec_emit_bind, emit_expr, emit_bind, spec_indent, indent, spec_cname,
    push_cname, ty_in_tables, spec_c_ty, c_ty, spec_free_slot, free_slot, push_all, cname,
};
use crate::c_program::{
    spec_struct_def, emit_struct_def, fields_in_tables, spec_fn_head, emit_fn_head, params_in_tables, param_ty,
    spec_zero_value, zero_value, spec_check_line, emit_pre_check, spec_example_cond, emit_example_check,
    block_safe, block_text, block_env, block_depth, emit_block, post_view, decl_var, with_ret, spec_post_cond,
};

verus! {

broadcast use vstd::std_specs::vec::axiom_vec_decreases_to_view;

/// C 运行时：格式化缓冲、字符串、除零与越界守卫、动态数组、map（拉链哈希表）、排序与释放
pub const C_RUNTIME: &'static str = "static char __t_sb[8][64]; static int __t_bi = 0;\n\
         static const char* __t_tos_ll(long long v){ char* b=__t_sb[__t_bi++&7]; snprintf(b,64,\"%lld\",v); return b; }\n\
         static const char* __t_tos_f(double v){ char* b=__t_sb[__t_bi++&7]; snprintf(b,64,\"%g\",v); return b; }\n\
         static const char* __t_tos_b(int v){ return v ? \"true\" : \"false\"; }\n\
         static char* __t_cat(const char* a, const char* b){ size_t la=strlen(a),lb=strlen(b); char* r=(char*)malloc(la+lb+1); memcpy(r,a,la); memcpy(r+la,b,lb+1); return r; }\n\
         static int __t_seq(const char* a, const char* b){ return strcmp(a,b)==0; }\n\
         static int __t_sne(const char* a, const char* b){ return strcmp(a,b)!=0; }\n\
         static char* __t_dup(const char* s){ size_t n=strlen(s?s:\"\")+1; char* r=(char*)malloc(n); memcpy(r,s?s:\"\",n); return r; }\n\
         static void __t_free(const char* p){ free((void*)p); }\n\
         static void __t_panic(const char* w){ fprintf(stderr, \"运行时错误：%s\\n\", w?w:\"\"); exit(1); }\n\
         static long long __t_idx(long long len, long long i){ if(i<0||i>=len) __t_panic(\"数组越界\"); return i; }\n\
         typedef struct { long long len, cap; } __t_darr_hdr;\n\
         static char* __t_darr_data(void* h){ return (char*)h + 16; }\n\
         static void* __t_dgrow(void* h){ __t_darr_hdr* x=(__t_darr_hdr*)h; x->cap*=2; void* n=realloc(h,16+(size_t)x->cap*8); if(!n){fprintf(stderr,\"天运行时：内存分配失败\\n\");exit(1);} return n; }\n\
         static void* __t_dnew(long long cap){ if(cap<4)cap=4; void* h=malloc(16+(size_t)cap*8); if(!h){fprintf(stderr,\"天运行时：内存分配失败\\n\");exit(1);} ((__t_darr_hdr*)h)->len=0; ((__t_darr_hdr*)h)->cap=cap; return h; }\n\
         static long long __t_dlen(void* h){ return ((__t_darr_hdr*)h)->len; }\n\
         static void __t_dbound(void* h, long long i){ long long len=((__t_darr_hdr*)h)->len; if(i<0||i>=len) __t_panic(\"数组越界\"); }\n\
         static long long __t_dget_i(void* h, long long i){ __t_dbound(h,i); return ((long long*)__t_darr_data(h))[i]; }\n\
         static double __t_dget_f(void* h, long long i){ __t_dbound(h,i); return ((double*)__t_darr_data(h))[i]; }\n\
         static void __t_dset_i(void* h, long long i, long long v){ __t_dbound(h,i); ((long long*)__t_darr_data(h))[i]=v; }\n\
         static void __t_dset_f(void* h, long long i, double v){ __t_dbound(h,i); ((double*)__t_darr_data(h))[i]=v; }\n\
         static void* __t_dpush_i(void* h, long long v){ __t_darr_hdr* x=(__t_darr_hdr*)h; if(x->len==x->cap) h=__t_dgrow(h); ((long long*)__t_darr_data(h))[((__t_darr_hdr*)h)->len]=v; ((__t_darr_hdr*)h)->len++; return h; }\n\
         static void* __t_dpush_f(void* h, double v){ __t_darr_hdr* x=(__t_darr_hdr*)h; if(x->len==x->cap) h=__t_dgrow(h); ((double*)__t_darr_data(h))[((__t_darr_hdr*)h)->len]=v; ((__t_darr_hdr*)h)->len++; return h; }\n\
         static void __t_dpop(void* h){ __t_darr_hdr* x=(__t_darr_hdr*)h; if(x->len==0) __t_panic(\"pop 空数组\"); x->len--; }\n\
         static long long __t_sget(const char* s, long long i){ long long n=(long long)strlen(s); if(i<0||i>=n) __t_panic(\"字符串下标越界\"); return (long long)(unsigned char)s[i]; }\n\
         static void* __t_dpush_s(void* h, char* v){ __t_darr_hdr* x=(__t_darr_hdr*)h; if(x->len==x->cap) h=__t_dgrow(h); ((char**)__t_darr_data(h))[((__t_darr_hdr*)h)->len]=v; ((__t_darr_hdr*)h)->len++; return h; }\n\
         static char* __t_dget_s(void* h, long long i){ __t_dbound(h,i); return ((char**)__t_darr_data(h))[i]; }\n\
         static void __t_dfree_s(void* h){ __t_darr_hdr* x=(__t_darr_hdr*)h; for(long long i=0;i<x->len;i++) free(((char**)__t_darr_data(h))[i]); free(h); }\n\
         static double __t_tof(const char* s){ char* end=0; double v=strtod(s,&end); if(end==s||*end!=0) __t_panic(\"无效数字\"); return v; }\n\
         static char* __t_sub(const char* s, long long start, long long n){ long long len=(long long)strlen(s); if(start<0||n<0||start+n>len) __t_panic(\"子串越界\"); char* r=(char*)malloc((size_t)n+1); if(!r){fprintf(stderr,\"天运行时：内存分配失败\\n\");exit(1);} memcpy(r,s+start,(size_t)n); r[n]=0; return r; }\n\
         static int __t_idiv_i(int a, int b){ if(b==0) __t_panic(\"除数为零\"); return a/b; }\n\
         static long long __t_idiv_l(long long a, long long b){ if(b==0) __t_panic(\"除数为零\"); return a/b; }\n\
         static void* __t_malloc(long long size){ void* p=malloc((size_t)size); if(!p){fprintf(stderr,\"天运行时：内存分配失败\\n\");exit(1);} return p; }\n\
         typedef struct __t_mnode{ long long hash; struct __t_mnode* next; long long key; long long val; } __t_mnode;\n\
         typedef struct { long long len, cap; } __t_map_hdr;\n\
         static __t_mnode** __t_mbuckets(void* h){ return (__t_mnode**)((char*)h + 16); }\n\
         static long long __t_mhash_s(const char* s){ long long h=0xcbf29ce484222325; while(*s) h=(h^(unsigned char)*s++)*0x100000001b3ull; return h; }\n\
         static long long __t_mhash_i(long long x){ x^=x>>33; x*=0xff51afd7ed558ccdull; x^=x>>33; x*=0xc4ceb9fe1a85ec53ull; x^=x>>33; return x; }\n\
         static __t_mnode* __t_mfind_i(void* h, long long k){ __t_map_hdr* x=(__t_map_hdr*)h; __t_mnode* n=__t_mbuckets(h)[__t_mhash_i(k)&(x->cap-1)]; while(n&&n->key!=k)n=n->next; return n; }\n\
         static __t_mnode* __t_mfind_s(void* h, const char* k){ __t_map_hdr* x=(__t_map_hdr*)h; __t_mnode* n=__t_mbuckets(h)[__t_mhash_s(k)&(x->cap-1)]; while(n&&strcmp((char*)n->key,k))n=n->next; return n; }\n\
         static void* __t_mgrow(void* h){ __t_map_hdr* x=(__t_map_hdr*)h; long long oldcap=x->cap, newcap=oldcap*2; void* n=realloc(h,16+(size_t)newcap*8); if(!n){fprintf(stderr,\"天运行时：内存分配失败\\n\");exit(1);} ((__t_map_hdr*)n)->cap=newcap; __t_mnode** b=__t_mbuckets(n); memset(b+oldcap,0,(size_t)oldcap*8); for(long long i=0;i<oldcap;i++){ __t_mnode* cur=b[i]; b[i]=NULL; while(cur){ __t_mnode* nx=cur->next; long long j=cur->hash&(newcap-1); cur->next=b[j]; b[j]=cur; cur=nx; } } return n; }\n\
         static __t_mnode* __t_mnode_new(void){ __t_mnode* n=(__t_mnode*)malloc(sizeof(__t_mnode)); if(!n){fprintf(stderr,\"天运行时：内存分配失败\\n\");exit(1);} return n; }\n\
         static void* __t_mnew(long long cap){ if(cap<8)cap=8; void* h=malloc(16+(size_t)cap*8); if(!h){fprintf(stderr,\"天运行时：内存分配失败\\n\");exit(1);} ((__t_map_hdr*)h)->len=0; ((__t_map_hdr*)h)->cap=cap; memset(__t_mbuckets(h),0,(size_t)cap*8); return h; }\n\
         static long long __t_mlen(void* h){ return ((__t_map_hdr*)h)->len; }\n\
         static long long __t_mhas_i(void* h, long long k){ return __t_mfind_i(h,k)!=NULL; }\n\
         static long long __t_mhas_s(void* h, const char* k){ return __t_mfind_s(h,k)!=NULL; }\n\
         static long long __t_mget_ii(void* h, long long k){ __t_mnode* n=__t_mfind_i(h,k); if(!n)__t_panic(\"map 键不存在\"); return n->val; }\n\
         static double __t_mget_if(void* h, long long k){ __t_mnode* n=__t_mfind_i(h,k); if(!n)__t_panic(\"map 键不存在\"); double d; memcpy(&d,&n->val,8); return d; }\n\
         static char* __t_mget_is(void* h, long long k){ __t_mnode* n=__t_mfind_i(h,k); if(!n)__t_panic(\"map 键不存在\"); return (char*)n->val; }\n\
         static long long __t_mget_si(void* h, const char* k){ __t_mnode* n=__t_mfind_s(h,k); if(!n)__t_panic(\"map 键不存在\"); return n->val; }\n\
         static double __t_mget_sf(void* h, const char* k){ __t_mnode* n=__t_mfind_s(h,k); if(!n)__t_panic(\"map 键不存在\"); double d; memcpy(&d,&n->val,8); return d; }\n\
         static char* __t_mget_ss(void* h, const char* k){ __t_mnode* n=__t_mfind_s(h,k); if(!n)__t_panic(\"map 键不存在\"); return (char*)n->val; }\n\
         static void* __t_mset_ii(void* h, long long k, long long v){ __t_map_hdr* x=(__t_map_hdr*)h; __t_mnode* n=__t_mfind_i(h,k); if(n){n->val=v; return h;} if((x->len+1)*4>x->cap*3){h=__t_mgrow(h);x=(__t_map_hdr*)h;} long long hh=__t_mhash_i(k); __t_mnode* nn=__t_mnode_new(); nn->hash=hh; nn->key=k; nn->val=v; nn->next=__t_mbuckets(h)[hh&(x->cap-1)]; __t_mbuckets(h)[hh&(x->cap-1)]=nn; x->len++; return h; }\n\
         static void* __t_mset_if(void* h, long long k, double v){ long long bits; memcpy(&bits,&v,8); return __t_mset_ii(h,k,bits); }\n\
         static void* __t_mset_is(void* h, long long k, char* v){ __t_map_hdr* x=(__t_map_hdr*)h; __t_mnode* n=__t_mfind_i(h,k); if(n){free((void*)n->val);n->val=(long long)v;return h;} if((x->len+1)*4>x->cap*3){h=__t_mgrow(h);x=(__t_map_hdr*)h;} long long hh=__t_mhash_i(k); __t_mnode* nn=__t_mnode_new(); nn->hash=hh; nn->key=k; nn->val=(long long)v; nn->next=__t_mbuckets(h)[hh&(x->cap-1)]; __t_mbuckets(h)[hh&(x->cap-1)]=nn; x->len++; return h; }\n\
         static void* __t_mset_si(void* h, char* k, long long v){ __t_map_hdr* x=(__t_map_hdr*)h; __t_mnode* n=__t_mfind_s(h,k); if(n){free(k);n->val=v;return h;} if((x->len+1)*4>x->cap*3){h=__t_mgrow(h);x=(__t_map_hdr*)h;} long long hh=__t_mhash_s(k); __t_mnode* nn=__t_mnode_new(); nn->hash=hh; nn->key=(long long)k; nn->val=v; nn->next=__t_mbuckets(h)[hh&(x->cap-1)]; __t_mbuckets(h)[hh&(x->cap-1)]=nn; x->len++; return h; }\n\
         static void* __t_mset_sf(void* h, char* k, double v){ long long bits; memcpy(&bits,&v,8); return __t_mset_si(h,k,bits); }\n\
         static void* __t_mset_ss(void* h, char* k, char* v){ __t_map_hdr* x=(__t_map_hdr*)h; __t_mnode* n=__t_mfind_s(h,k); if(n){free(k);free((void*)n->val);n->val=(long long)v;return h;} if((x->len+1)*4>x->cap*3){h=__t_mgrow(h);x=(__t_map_hdr*)h;} long long hh=__t_mhash_s(k); __t_mnode* nn=__t_mnode_new(); nn->hash=hh; nn->key=(long long)k; nn->val=(long long)v; nn->next=__t_mbuckets(h)[hh&(x->cap-1)]; __t_mbuckets(h)[hh&(x->cap-1)]=nn; x->len++; return h; }\n\
         static void __t_mdel_ii(void* h, long long k){ __t_map_hdr* x=(__t_map_hdr*)h; long long idx=__t_mhash_i(k)&(x->cap-1); __t_mnode** pp=&__t_mbuckets(h)[idx]; while(*pp){ if((*pp)->key==k){ __t_mnode* t=*pp; *pp=t->next; free(t); x->len--; return; } pp=&(*pp)->next; } }\n\
         static void __t_mdel_if(void* h, long long k){ __t_mdel_ii(h,k); }\n\
         static void __t_mdel_is(void* h, long long k){ __t_map_hdr* x=(__t_map_hdr*)h; long long idx=__t_mhash_i(k)&(x->cap-1); __t_mnode** pp=&__t_mbuckets(h)[idx]; while(*pp){ if((*pp)->key==k){ __t_mnode* t=*pp; *pp=t->next; free((void*)t->val); free(t); x->len--; return; } pp=&(*pp)->next; } }\n\
         static void __t_mdel_si(void* h, const char* k){ __t_map_hdr* x=(__t_map_hdr*)h; long long idx=__t_mhash_s(k)&(x->cap-1); __t_mnode** pp=&__t_mbuckets(h)[idx]; while(*pp){ if(!strcmp((char*)(*pp)->key,k)){ __t_mnode* t=*pp; *pp=t->next; free((void*)t->key); free(t); x->len--; return; } pp=&(*pp)->next; } }\n\
         static void __t_mdel_sf(void* h, const char* k){ __t_mdel_si(h,k); }\n\
         static void __t_mdel_ss(void* h, const char* k){ __t_map_hdr* x=(__t_map_hdr*)h; long long idx=__t_mhash_s(k)&(x->cap-1); __t_mnode** pp=&__t_mbuckets(h)[idx]; while(*pp){ if(!strcmp((char*)(*pp)->key,k)){ __t_mnode* t=*pp; *pp=t->next; free((void*)t->key); free((void*)t->val); free(t); x->len--; return; } pp=&(*pp)->next; } }\n\
         static void* __t_mkeys_i(void* h){ __t_map_hdr* x=(__t_map_hdr*)h; void* d=__t_dnew(x->cap); for(long long i=0;i<x->cap;i++){ __t_mnode* n=__t_mbuckets(h)[i]; while(n){ __t_dpush_i(d,n->key); n=n->next; } } return d; }\n\
         static void* __t_mkeys_s(void* h){ __t_map_hdr* x=(__t_map_hdr*)h; void* d=__t_dnew(x->cap); for(long long i=0;i<x->cap;i++){ __t_mnode* n=__t_mbuckets(h)[i]; while(n){ __t_dpush_s(d,__t_dup((char*)n->key)); n=n->next; } } return d; }\n\
         static void* __t_mvalues_i(void* h){ __t_map_hdr* x=(__t_map_hdr*)h; void* d=__t_dnew(x->cap); for(long long i=0;i<x->cap;i++){ __t_mnode* n=__t_mbuckets(h)[i]; while(n){ __t_dpush_i(d,n->val); n=n->next; } } return d; }\n\
         static void* __t_mvalues_f(void* h){ __t_map_hdr* x=(__t_map_hdr*)h; void* d=__t_dnew(x->cap); for(long long i=0;i<x->cap;i++){ __t_mnode* n=__t_mbuckets(h)[i]; while(n){ double v; memcpy(&v,&n->val,8); __t_dpush_f(d,v); n=n->next; } } return d; }\n\
         static void* __t_mvalues_s(void* h){ __t_map_hdr* x=(__t_map_hdr*)h; void* d=__t_dnew(x->cap); for(long long i=0;i<x->cap;i++){ __t_mnode* n=__t_mbuckets(h)[i]; while(n){ __t_dpush_s(d,__t_dup((char*)n->val)); n=n->next; } } return d; }\n\
         static void __t_sort_i(void* h){ __t_darr_hdr* x=(__t_darr_hdr*)h; long long* b=(long long*)__t_darr_data(h); long long i,j; for(i=1;i<x->len;i++){ long long t=b[i]; j=i-1; while(j>=0 && b[j]>t){ b[j+1]=b[j]; j--; } b[j+1]=t; } }\n\
         static void __t_sort_f(void* h){ __t_darr_hdr* x=(__t_darr_hdr*)h; double* b=(double*)__t_darr_data(h); long long i,j; for(i=1;i<x->len;i++){ double t=b[i]; j=(long long)i-1; while(j>=0 && b[j]>t){ b[j+1]=b[j]; j--; } b[j+1]=t; } }\n\
         static void __t_sort_s(void* h){ __t_darr_hdr* x=(__t_darr_hdr*)h; char** b=(char**)__t_darr_data(h); long long i,j; for(i=1;i<x->len;i++){ char* t=b[i]; j=(long long)i-1; while(j>=0 && strcmp(b[j],t)>0){ b[j+1]=b[j]; j--; } b[j+1]=t; } }\n\
         static void __t_mfree_ii(void* h){ if(!h)return; __t_map_hdr* x=(__t_map_hdr*)h; for(long long i=0;i<x->cap;i++){ __t_mnode* n=__t_mbuckets(h)[i]; while(n){ __t_mnode* nx=n->next; free(n); n=nx; } } free(h); }\n\
         static void __t_mfree_if(void* h){ __t_mfree_ii(h); }\n\
         static void __t_mfree_is(void* h){ if(!h)return; __t_map_hdr* x=(__t_map_hdr*)h; for(long long i=0;i<x->cap;i++){ __t_mnode* n=__t_mbuckets(h)[i]; while(n){ __t_mnode* nx=n->next; free((void*)n->val); free(n); n=nx; } } free(h); }\n\
         static void __t_mfree_si(void* h){ if(!h)return; __t_map_hdr* x=(__t_map_hdr*)h; for(long long i=0;i<x->cap;i++){ __t_mnode* n=__t_mbuckets(h)[i]; while(n){ __t_mnode* nx=n->next; free((void*)n->key); free(n); n=nx; } } free(h); }\n\
         static void __t_mfree_sf(void* h){ __t_mfree_si(h); }\n\
         static void __t_mfree_ss(void* h){ if(!h)return; __t_map_hdr* x=(__t_map_hdr*)h; for(long long i=0;i<x->cap;i++){ __t_mnode* n=__t_mbuckets(h)[i]; while(n){ __t_mnode* nx=n->next; free((void*)n->key); free((void*)n->val); free(n); n=nx; } } free(h); }\n\n";

/// 文件头：来源注释、标准头文件与运行时
pub open spec fn c_header() -> Seq<char> {
    "/* 由 tc（Tian Compiler v2.0，天权）生成 */\n"@ + "#include <stdio.h>\n#include <stdlib.h>\n#include <string.h>\n\n"@
        + C_RUNTIME@
}

fn push_header(out: &mut Vec<char>)
    ensures
        final(out)@ == old(out)@ + c_header(),
{
    let ghost start = out@;
    push_str_chars("/* 由 tc（Tian Compiler v2.0，天权）生成 */\n", out);
    push_str_chars("#include <stdio.h>\n#include <stdlib.h>\n#include <string.h>\n\n", out);
    push_str_chars(C_RUNTIME, out);
    assert(out@ =~= start + c_header());
}

/// 全部结构体定义
pub open spec fn spec_struct_defs(ss: Seq<StructDef>, structs: Seq<StructDef>, tb: TbView) -> Seq<char>
    decreases ss.len(),
{
    if ss.len() == 0 {
        seq![]
    } else {
        spec_struct_defs(ss.drop_last(), structs, tb) + spec_struct_def(ss.last(), structs, tb)
    }
}

fn emit_struct_defs(structs: &Vec<StructDef>, tables: &TypeTables, out: &mut Vec<char>)
    requires
        forall|i: int| 0 <= i < structs@.len() ==> fields_in_tables(#[trigger] structs@[i].fields@, structs@, tables@),
    ensures
        final(out)@ == old(out)@ + spec_struct_defs(structs@, structs@, tables@),
{
    let ghost start = out@;
    let mut i: usize = 0;
    while i < structs.len()
        invariant
            i <= structs@.len(),
            forall|k: int| 0 <= k < structs@.len() ==> fields_in_tables(#[trigger] structs@[k].fields@, structs@, tables@),
            out@ == start + spec_struct_defs(structs@.take(i as int), structs@, tables@),
        decreases structs@.len() - i,
    {
        assert(fields_in_tables(structs@[i as int].fields@, structs@, tables@));
        emit_struct_def(&structs[i], structs.as_slice(), tables, out);
        proof {
            let w = structs@.take(i + 1);
            assert(w.drop_last() =~= structs@.take(i as int));
            assert(w.last() == structs@[i as int]);
        }
        i = i + 1;
    }
    assert(structs@.take(structs@.len() as int) =~= structs@);
}

// ───────────────────────── 后端函数表 ─────────────────────────

/// 函数的返回类型（未标注按 i64）
pub open spec fn fn_ret_ty(f: FnDef) -> Ty {
    match f.ret {
        Some(t) => t,
        None => Ty::I64,
    }
}

/// 后端用的签名：形参类型缺省 i64；动态数组与 map 形参的借用标记生效（只读视图，不移动实参）
pub open spec fn gen_sig(f: FnDef) -> FSig {
    FSig {
        params: f.params@.map_values(|p: Param| param_ty(p)),
        borrows: f.params@.map_values(|p: Param| p.borrow && (param_ty(p) is DArr || param_ty(p) is MapOf)),
        ret: fn_ret_ty(f),
    }
}

/// 后端函数表：按声明顺序登记，同名以后者为准
pub open spec fn gen_funcs(fs: Seq<FnDef>) -> Map<Seq<char>, FSig>
    decreases fs.len(),
{
    if fs.len() == 0 {
        Map::empty()
    } else {
        gen_funcs(fs.drop_last()).insert(fs.last().name@, gen_sig(fs.last()))
    }
}

fn build_gen_sig(f: &FnDef) -> (r: FuncSig)
    ensures
        fsig_view(r) == gen_sig(*f),
{
    let mut params: Vec<Ty> = Vec::new();
    let mut borrows: Vec<bool> = Vec::new();
    let mut i: usize = 0;
    while i < f.params.len()
        invariant
            i <= f.params@.len(),
            params@ =~= f.params@.take(i as int).map_values(|p: Param| param_ty(p)),
            borrows@ =~= f.params@.take(i as int).map_values(|p: Param| p.borrow && (param_ty(p) is DArr || param_ty(p) is MapOf)),
        decreases f.params@.len() - i,
    {
        let t = match f.params[i].ty {
            Some(t) => t,
            None => Ty::I64,
        };
        let is_view = match t {
            Ty::DArr(_) | Ty::MapOf(_) => true,
            _ => false,
        };
        params.push(t);
        borrows.push(f.params[i].borrow && is_view);
        proof {
            assert(f.params@.take(i + 1) =~= f.params@.take(i as int).push(f.params@[i as int]));
        }
        i = i + 1;
    }
    assert(f.params@.take(f.params@.len() as int) =~= f.params@);
    let ret = match f.ret {
        Some(t) => t,
        None => Ty::I64,
    };
    FuncSig { params, borrows, ret }
}

/// 后端函数表
pub fn gen_func_table(fs: &Vec<FnDef>) -> (r: FuncTable)
    ensures
        r.view() == gen_funcs(fs@),
{
    let mut t = FuncTable::new();
    let mut i: usize = 0;
    while i < fs.len()
        invariant
            i <= fs@.len(),
            t.view() == gen_funcs(fs@.take(i as int)),
        decreases fs@.len() - i,
    {
        let sig = build_gen_sig(&fs[i]);
        t.insert(fs[i].name.clone(), sig);
        proof {
            let w = fs@.take(i + 1);
            assert(w.drop_last() =~= fs@.take(i as int));
            assert(w.last() == fs@[i as int]);
        }
        i = i + 1;
    }
    assert(fs@.take(fs@.len() as int) =~= fs@);
    t
}

/// 前向声明：每个函数一行签名
pub open spec fn spec_fwd_decls(fs: Seq<FnDef>, structs: Seq<StructDef>, tb: TbView) -> Seq<char>
    decreases fs.len(),
{
    if fs.len() == 0 {
        seq![]
    } else {
        spec_fwd_decls(fs.drop_last(), structs, tb) + spec_fn_head(fs.last(), structs, tb, ";"@)
    }
}

/// 函数的签名类型都在类型表内，返回类型不是借用或定长数组
pub open spec fn fn_sig_ok(f: FnDef, structs: Seq<StructDef>, tb: TbView) -> bool {
    &&& params_in_tables(f.params@, structs, tb)
    &&& ty_in_tables(fn_ret_ty(f), structs, tb)
    &&& fn_ret_ty(f) != Ty::BorrowStr
    &&& !(fn_ret_ty(f) is Arr)
}

fn emit_fwd_decls(fs: &Vec<FnDef>, structs: &[StructDef], tables: &TypeTables, out: &mut Vec<char>)
    requires
        forall|i: int| 0 <= i < fs@.len() ==> fn_sig_ok(#[trigger] fs@[i], structs@, tables@),
    ensures
        final(out)@ == old(out)@ + spec_fwd_decls(fs@, structs@, tables@),
{
    let ghost start = out@;
    let mut i: usize = 0;
    while i < fs.len()
        invariant
            i <= fs@.len(),
            forall|k: int| 0 <= k < fs@.len() ==> fn_sig_ok(#[trigger] fs@[k], structs@, tables@),
            out@ == start + spec_fwd_decls(fs@.take(i as int), structs@, tables@),
        decreases fs@.len() - i,
    {
        assert(fn_sig_ok(fs@[i as int], structs@, tables@));
        emit_fn_head(&fs[i], structs, tables, ";", out);
        proof {
            let w = fs@.take(i + 1);
            assert(w.drop_last() =~= fs@.take(i as int));
            assert(w.last() == fs@[i as int]);
        }
        i = i + 1;
    }
    assert(fs@.take(fs@.len() as int) =~= fs@);
}

// ───────────────────────── 堆值槽 ─────────────────────────

/// 槽位变量的类型（未记录按 str）
pub open spec fn slot_ty_of(tys: Map<Seq<char>, Ty>, n: Seq<char>) -> Ty {
    if tys.contains_key(n) {
        tys[n]
    } else {
        Ty::Str
    }
}

/// 各槽位的类型都在类型表内
pub open spec fn slots_ok(names: Seq<Seq<char>>, tys: Map<Seq<char>, Ty>, structs: Seq<StructDef>, tb: TbView) -> bool {
    forall|i: int| 0 <= i < names.len() ==> ty_in_tables(slot_ty_of(tys, #[trigger] names[i]), structs, tb)
}

/// 作用域开头：堆值槽声明为 NULL
pub open spec fn spec_slot_decls(names: Seq<Seq<char>>, tys: Map<Seq<char>, Ty>, structs: Seq<StructDef>, tb: TbView) -> Seq<char>
    decreases names.len(),
{
    if names.len() == 0 {
        seq![]
    } else {
        spec_slot_decls(names.drop_last(), tys, structs, tb) + "    "@ + spec_c_ty(slot_ty_of(tys, names.last()), structs, tb)
            + " "@ + spec_cname(names.last()) + " = NULL;\n"@
    }
}

/// 作用域出口：释放各堆值槽并置空（已移出的为 NULL，释放安全）
pub open spec fn spec_slot_frees(names: Seq<Seq<char>>, tys: Map<Seq<char>, Ty>, structs: Seq<StructDef>, tb: TbView, level: nat) -> Seq<char>
    decreases names.len(),
{
    if names.len() == 0 {
        seq![]
    } else {
        let n = names.last();
        spec_slot_frees(names.drop_last(), tys, structs, tb, level) + spec_indent(level) + "    "@ + spec_free_slot(
            spec_cname(n),
            slot_ty_of(tys, n),
            structs,
            tb,
        ) + " "@ + spec_cname(n) + " = NULL;\n"@
    }
}

fn slot_ty(tys: &TyScope, n: &str) -> (r: Ty)
    ensures
        r == slot_ty_of(tys@, n@),
{
    match tys.get(n) {
        Some(t) => t,
        None => Ty::Str,
    }
}

fn emit_slot_decls(names: &Vec<String>, tys: &TyScope, structs: &[StructDef], tables: &TypeTables, out: &mut Vec<char>)
    requires
        slots_ok(strings_view(names@), tys@, structs@, tables@),
    ensures
        final(out)@ == old(out)@ + spec_slot_decls(strings_view(names@), tys@, structs@, tables@),
{
    let ghost nv = strings_view(names@);
    let ghost start = out@;
    let mut i: usize = 0;
    while i < names.len()
        invariant
            i <= names@.len(),
            nv == strings_view(names@),
            slots_ok(nv, tys@, structs@, tables@),
            out@ == start + spec_slot_decls(nv.take(i as int), tys@, structs@, tables@),
        decreases names@.len() - i,
    {
        assert(nv[i as int] == names@[i as int]@);
        assert(ty_in_tables(slot_ty_of(tys@, nv[i as int]), structs@, tables@));
        let t = slot_ty(tys, names[i].as_str());
        let ct = c_ty(t, structs, tables);
        push_str_chars("    ", out);
        push_str_chars(ct.as_str(), out);
        push_str_chars(" ", out);
        push_cname(names[i].as_str(), out);
        push_str_chars(" = NULL;\n", out);
        proof {
            let w = nv.take(i + 1);
            assert(w.drop_last() =~= nv.take(i as int));
            assert(w.last() == nv[i as int]);
            assert(out@ =~= start + spec_slot_decls(w, tys@, structs@, tables@));
        }
        i = i + 1;
    }
    assert(nv.take(names@.len() as int) =~= nv);
}

fn emit_slot_frees(names: &Vec<String>, tys: &TyScope, structs: &[StructDef], tables: &TypeTables, out: &mut Vec<char>, level: usize)
    requires
        slots_ok(strings_view(names@), tys@, structs@, tables@),
    ensures
        final(out)@ == old(out)@ + spec_slot_frees(strings_view(names@), tys@, structs@, tables@, level as nat),
{
    let ghost nv = strings_view(names@);
    let ghost start = out@;
    let mut i: usize = 0;
    while i < names.len()
        invariant
            i <= names@.len(),
            nv == strings_view(names@),
            slots_ok(nv, tys@, structs@, tables@),
            out@ == start + spec_slot_frees(nv.take(i as int), tys@, structs@, tables@, level as nat),
        decreases names@.len() - i,
    {
        assert(nv[i as int] == names@[i as int]@);
        assert(ty_in_tables(slot_ty_of(tys@, nv[i as int]), structs@, tables@));
        let t = slot_ty(tys, names[i].as_str());
        let cn = cname(names[i].as_str());
        let fs = free_slot(cn.as_str(), t, structs, tables);
        indent(out, level);
        push_str_chars("    ", out);
        push_str_chars(fs.as_str(), out);
        push_str_chars(" ", out);
        push_str_chars(cn.as_str(), out);
        push_str_chars(" = NULL;\n", out);
        proof {
            let w = nv.take(i + 1);
            assert(w.drop_last() =~= nv.take(i as int));
            assert(w.last() == nv[i as int]);
            assert(out@ =~= start + spec_slot_frees(w, tys@, structs@, tables@, level as nat));
        }
        i = i + 1;
    }
    assert(nv.take(names@.len() as int) =~= nv);
}

// ───────────────────────── @example 自检 ─────────────────────────

/// 元组返回值第 i 槽与期望值的比较：str 按内容，f64 按 double，其余按 long long
pub open spec fn res_part(t: Ty, i: nat, x: Seq<char>) -> Seq<char> {
    if t == Ty::Str {
        "__t_seq(((const char*)((long long*)__t_res)["@ + radix_text(i, 10) + "]), "@ + x + ")"@
    } else if t == Ty::F64 {
        "((double*)__t_res)["@ + radix_text(i, 10) + "] == ("@ + x + ")"@
    } else {
        "((long long*)__t_res)["@ + radix_text(i, 10) + "] == (long long)("@ + x + ")"@
    }
}

/// 前 n 个槽的比较，以 && 连接
pub open spec fn res_conds(es: Seq<SExpr>, tys: Seq<Ty>, g: GEnv, n: nat) -> Seq<char>
    decreases n,
{
    if n == 0 {
        seq![]
    } else if n == 1 {
        res_part(tys[0], 0, spec_emit_bind(es[0], g))
    } else {
        res_conds(es, tys, g, (n - 1) as nat) + " && "@ + res_part(tys[n - 1], (n - 1) as nat, spec_emit_bind(es[n - 1], g))
    }
}

/// 一条 @example 的自检代码：元组返回逐槽比较（结果只求值一次），其余整体比较
pub open spec fn spec_example(c: SContract, name: Seq<char>, frt: Ty, g: GEnv) -> Seq<char> {
    match c {
        SContract::Example { call, expected, line } => if frt is Tuple {
            let tys = g.tb.tuples[frt->Tuple_0 as int];
            "{\n"@ + "    void* __t_res = "@ + spec_emit_expr(call, g) + ";\n"@ + spec_check_line(
                "@example 契约失败："@,
                res_conds(expected->TupExpr_elems, tys, g, tys.len()),
                name,
                line as nat,
            ) + "}\n"@
        } else {
            spec_check_line(
                "@example 契约失败："@,
                spec_example_cond(frt, spec_emit_expr(call, g), spec_emit_expr(expected, g)),
                name,
                line as nat,
            )
        },
        _ => seq![],
    }
}

/// @example 可以生成：调用可生成；元组返回时期望值是不短于元组的元组字面量，其余时期望值可生成
pub open spec fn example_safe(c: SContract, frt: Ty, g: GEnv) -> bool {
    match c {
        SContract::Example { call, expected, .. } => {
            &&& emit_safe(call, g)
            &&& if frt is Tuple {
                let tys = g.tb.tuples[frt->Tuple_0 as int];
                &&& (frt->Tuple_0 as int) < g.tb.tuples.len()
                &&& expected is TupExpr
                &&& expected->TupExpr_elems.len() >= tys.len()
                &&& forall|i: int| 0 <= i < tys.len() ==> emit_safe(#[trigger] expected->TupExpr_elems[i], g)
            } else {
                emit_safe(expected, g)
            }
        },
        _ => true,
    }
}

pub open spec fn spec_fn_examples(cs: Seq<SContract>, name: Seq<char>, frt: Ty, g: GEnv) -> Seq<char>
    decreases cs.len(),
{
    if cs.len() == 0 {
        seq![]
    } else {
        spec_fn_examples(cs.drop_last(), name, frt, g) + spec_example(cs.last(), name, frt, g)
    }
}

/// 所有函数的 @example 自检（返回类型取函数表中的签名）
pub open spec fn spec_examples(fs: Seq<FnDef>, funcs: Map<Seq<char>, FSig>, g: GEnv) -> Seq<char>
    decreases fs.len(),
{
    if fs.len() == 0 {
        seq![]
    } else {
        let f = fs.last();
        spec_examples(fs.drop_last(), funcs, g) + spec_fn_examples(contracts_view(f.contracts@), f.name@, funcs[f.name@].ret, g)
    }
}

pub open spec fn examples_safe(fs: Seq<FnDef>, funcs: Map<Seq<char>, FSig>, g: GEnv) -> bool {
    forall|i: int, j: int|
        0 <= i < fs.len() && 0 <= j < fs[i].contracts@.len() ==> example_safe(
            #[trigger] contracts_view(fs[i].contracts@)[j],
            funcs[fs[i].name@].ret,
            g,
        )
}

fn push_res_part(t: Ty, i: usize, x: &Vec<char>, out: &mut Vec<char>)
    ensures
        final(out)@ == old(out)@ + res_part(t, i as nat, x@),
{
    let ghost start = out@;
    if t == Ty::Str {
        push_str_chars("__t_seq(((const char*)((long long*)__t_res)[", out);
        push_decimal(i as u64, out);
        push_str_chars("]), ", out);
        push_all(x, out);
        push_str_chars(")", out);
    } else if t == Ty::F64 {
        push_str_chars("((double*)__t_res)[", out);
        push_decimal(i as u64, out);
        push_str_chars("] == (", out);
        push_all(x, out);
        push_str_chars(")", out);
    } else {
        push_str_chars("((long long*)__t_res)[", out);
        push_decimal(i as u64, out);
        push_str_chars("] == (long long)(", out);
        push_all(x, out);
        push_str_chars(")", out);
    }
    assert(out@ =~= start + res_part(t, i as nat, x@));
}

#[verifier::spinoff_prover]
#[verifier::rlimit(40)]
fn emit_tuple_example(
    call: &Expr,
    es: &Vec<Expr>,
    tys: &Vec<Ty>,
    name: &str,
    line: usize,
    scope: &Scope,
    sigs: &FuncTable,
    structs: &[StructDef],
    tables: &TypeTables,
    out: &mut Vec<char>,
)
    requires
        emit_safe(call@, genv(*scope, *sigs, structs@, tables@)),
        es@.len() >= tys@.len(),
        forall|i: int| 0 <= i < tys@.len() ==> emit_safe(#[trigger] exprs_view(es@)[i], genv(*scope, *sigs, structs@, tables@)),
    ensures
        final(out)@ == old(out)@ + ("{\n"@ + "    void* __t_res = "@ + spec_emit_expr(call@, genv(*scope, *sigs, structs@, tables@))
            + ";\n"@ + spec_check_line(
            "@example 契约失败："@,
            res_conds(exprs_view(es@), tys@, genv(*scope, *sigs, structs@, tables@), tys@.len()),
            name@,
            line as nat,
        ) + "}\n"@),
{
    let ghost g = genv(*scope, *sigs, structs@, tables@);
    let ghost ev = exprs_view(es@);
    let ghost start = out@;
    let mut cs: Vec<char> = Vec::new();
    emit_expr(call, scope, sigs, structs, tables, &mut cs);
    let mut cond: Vec<char> = Vec::new();
    let mut i: usize = 0;
    while i < tys.len()
        invariant
            i <= tys@.len(),
            es@.len() >= tys@.len(),
            ev == exprs_view(es@),
            g == genv(*scope, *sigs, structs@, tables@),
            forall|k: int| 0 <= k < tys@.len() ==> emit_safe(#[trigger] ev[k], g),
            cond@ == res_conds(ev, tys@, g, i as nat),
        decreases tys@.len() - i,
    {
        assert(ev[i as int] == es@[i as int]@);
        assert(emit_safe(ev[i as int], g));
        let mut x: Vec<char> = Vec::new();
        emit_bind(&es[i], scope, sigs, structs, tables, &mut x);
        let ghost before = cond@;
        if i > 0 {
            push_str_chars(" && ", &mut cond);
        }
        push_res_part(tys[i], i, &x, &mut cond);
        assert(cond@ =~= res_conds(ev, tys@, g, (i + 1) as nat));
        i = i + 1;
    }
    push_str_chars("{\n", out);
    push_str_chars("    void* __t_res = ", out);
    push_all(&cs, out);
    push_str_chars(";\n", out);
    let ghost a = out@;
    crate::c_program::push_check_line("@example 契约失败：", &cond, name, line, out);
    push_str_chars("}\n", out);
    assert(out@ =~= start + ("{\n"@ + "    void* __t_res = "@ + spec_emit_expr(call@, g) + ";\n"@ + spec_check_line(
        "@example 契约失败："@,
        res_conds(ev, tys@, g, tys@.len()),
        name@,
        line as nat,
    ) + "}\n"@));
}

#[verifier::spinoff_prover]
#[verifier::rlimit(40)]
fn emit_fn_examples(
    f: &FnDef,
    frt: Ty,
    scope: &Scope,
    sigs: &FuncTable,
    structs: &[StructDef],
    tables: &TypeTables,
    out: &mut Vec<char>,
)
    requires
        forall|j: int| 0 <= j < f.contracts@.len() ==> example_safe(
            #[trigger] contracts_view(f.contracts@)[j],
            frt,
            genv(*scope, *sigs, structs@, tables@),
        ),
    ensures
        final(out)@ == old(out)@ + spec_fn_examples(contracts_view(f.contracts@), f.name@, frt, genv(*scope, *sigs, structs@, tables@)),
{
    let ghost g = genv(*scope, *sigs, structs@, tables@);
    let ghost cv = contracts_view(f.contracts@);
    let ghost start = out@;
    let mut j: usize = 0;
    while j < f.contracts.len()
        invariant
            j <= f.contracts@.len(),
            cv == contracts_view(f.contracts@),
            g == genv(*scope, *sigs, structs@, tables@),
            forall|k: int| 0 <= k < f.contracts@.len() ==> example_safe(#[trigger] cv[k], frt, g),
            out@ == start + spec_fn_examples(cv.take(j as int), f.name@, frt, g),
        decreases f.contracts@.len() - j,
    {
        assert(cv[j as int] == f.contracts@[j as int]@);
        assert(example_safe(cv[j as int], frt, g));
        let ghost before = out@;
        match &f.contracts[j] {
            Contract::Example { call, expected, line } => {
                match frt {
                    Ty::Tuple(tid) => {
                        let td = &tables.tuples[tid as usize];
                        assert(tables@.tuples == crate::type_check::tuples_view(tables.tuples@));
                        assert(td.elems@ == g.tb.tuples[tid as int]);
                        match expected {
                            Expr::TupExpr { elems, .. } => {
                                assert(cv[j as int]->Example_expected->TupExpr_elems == exprs_view(elems@));
                                emit_tuple_example(call, elems, &td.elems, f.name.as_str(), *line, scope, sigs, structs, tables, out);
                            },
                            _ => {},
                        }
                    },
                    _ => {
                        emit_example_check(call, expected, frt, f.name.as_str(), *line, scope, sigs, structs, tables, out);
                    },
                }
            },
            _ => {},
        }
        proof {
            let w = cv.take(j + 1);
            assert(w.drop_last() =~= cv.take(j as int));
            assert(w.last() == cv[j as int]);
            assert(out@ =~= start + spec_fn_examples(w, f.name@, frt, g));
        }
        j = j + 1;
    }
    assert(cv.take(f.contracts@.len() as int) =~= cv);
}

// ───────────────────────── 函数定义 ─────────────────────────

/// 形参登记后的作用域（只读，同名以后者为准）
pub open spec fn param_scope(ps: Seq<Param>) -> Map<Seq<char>, VarInfo>
    decreases ps.len(),
{
    if ps.len() == 0 {
        Map::empty()
    } else {
        param_scope(ps.drop_last()).insert(ps.last().name@, decl_var(param_ty(ps.last()), false))
    }
}

/// 形参的类型表（槽位收集的起点）
pub open spec fn param_tys(ps: Seq<Param>) -> Map<Seq<char>, Ty>
    decreases ps.len(),
{
    if ps.len() == 0 {
        Map::empty()
    } else {
        param_tys(ps.drop_last()).insert(ps.last().name@, param_ty(ps.last()))
    }
}

/// 拥有所有权的形参（堆类型且不是借用），函数出口要释放
pub open spec fn owned_params(ps: Seq<Param>) -> Seq<Seq<char>>
    decreases ps.len(),
{
    if ps.len() == 0 {
        seq![]
    } else {
        owned_params(ps.drop_last()) + if spec_is_owned(param_ty(ps.last())) && !ps.last().borrow {
            seq![ps.last().name@]
        } else {
            seq![]
        }
    }
}

/// 第一条 @post（表达式与锚点行号）
pub open spec fn first_post(cs: Seq<SContract>) -> Option<(SExpr, usize)>
    decreases cs.len(),
{
    if cs.len() == 0 {
        None
    } else {
        match cs[0] {
            SContract::Post(e, l) => Some((e, l)),
            _ => first_post(cs.drop_first()),
        }
    }
}

/// 各 @pre 的入口守卫
pub open spec fn spec_pre_checks(cs: Seq<SContract>, name: Seq<char>, g: GEnv) -> Seq<char>
    decreases cs.len(),
{
    if cs.len() == 0 {
        seq![]
    } else {
        spec_pre_checks(cs.drop_last(), name, g) + match cs.last() {
            SContract::Pre(e, line) => spec_check_line("@pre 契约失败："@, spec_emit_expr(e, g), name, line as nat),
            _ => seq![],
        }
    }
}

pub open spec fn pres_safe(cs: Seq<SContract>, g: GEnv) -> bool {
    forall|j: int| 0 <= j < cs.len() ==> (#[trigger] cs[j] is Pre ==> emit_safe(cs[j]->Pre_0, g))
}

/// 函数体内的环境：形参已登记
pub open spec fn fn_env(f: FnDef, funcs: Map<Seq<char>, FSig>, structs: Seq<StructDef>, tb: TbView) -> GEnv {
    GEnv { sc: param_scope(f.params@), funcs, structs, tb }
}

/// 函数体内收集到的槽位：(类型表, 名字)
pub open spec fn fn_slots(f: FnDef, funcs: Map<Seq<char>, FSig>, structs: Seq<StructDef>, tb: TbView) -> (Map<Seq<char>, Ty>, Seq<Seq<char>>) {
    spec_collect(stmts_view(f.body@), (param_tys(f.params@), seq![]), funcs, structs, tb)
}

pub open spec fn post_expr(p: Option<(SExpr, usize)>) -> Option<SExpr> {
    match p {
        Some((e, _)) => Some(e),
        None => None,
    }
}

pub open spec fn post_line(p: Option<(SExpr, usize)>) -> nat {
    match p {
        Some((_, l)) => l as nat,
        None => 0,
    }
}

/// 函数末尾：隐式返回零值（有 @post 时先在落出路径上校验）
pub open spec fn spec_fn_tail(f: FnDef, g_end: GEnv, structs: Seq<StructDef>, tb: TbView) -> Seq<char> {
    let ret = fn_ret_ty(f);
    match first_post(contracts_view(f.contracts@)) {
        Some((p, l)) => "    { "@ + spec_c_ty(ret, structs, tb) + " t_ret = "@ + spec_zero_value(ret) + ";\n"@ + "    "@
            + spec_post_cond(p, l as nat, with_ret(g_end, ret)) + " return t_ret; }\n}\n\n"@,
        None => "    return "@ + spec_zero_value(ret) + ";\n}\n\n"@,
    }
}

/// 一个函数的 C 定义
pub open spec fn spec_fn_def(f: FnDef, funcs: Map<Seq<char>, FSig>, structs: Seq<StructDef>, tb: TbView) -> Seq<char> {
    let g = fn_env(f, funcs, structs, tb);
    let slots = fn_slots(f, funcs, structs, tb);
    let cs = contracts_view(f.contracts@);
    let post = first_post(cs);
    let body = stmts_view(f.body@);
    spec_fn_head(f, structs, tb, " {"@) + spec_slot_decls(slots.1, slots.0, structs, tb) + spec_pre_checks(cs, f.name@, g)
        + block_text(body, g, fn_ret_ty(f), post_expr(post), post_line(post), 1) + spec_slot_frees(
        slots.1 + owned_params(f.params@),
        slots.0,
        structs,
        tb,
        1,
    ) + spec_fn_tail(f, block_env(body, g), structs, tb)
}

/// 函数定义可以生成
pub open spec fn fn_def_safe(f: FnDef, funcs: Map<Seq<char>, FSig>, structs: Seq<StructDef>, tb: TbView) -> bool {
    let g = fn_env(f, funcs, structs, tb);
    let slots = fn_slots(f, funcs, structs, tb);
    let cs = contracts_view(f.contracts@);
    let post = first_post(cs);
    let body = stmts_view(f.body@);
    &&& fn_sig_ok(f, structs, tb)
    &&& slots_ok(slots.1 + owned_params(f.params@), slots.0, structs, tb)
    &&& pres_safe(cs, g)
    &&& block_safe(body, g, fn_ret_ty(f), post_expr(post))
    &&& 1 + block_depth(body) < usize::MAX
    &&& (post is Some ==> emit_safe(post->Some_0.0, with_ret(block_env(body, g), fn_ret_ty(f))))
}

pub(crate) fn param_scopes(ps: &Vec<crate::ast::Param>) -> (r: (Scope, TyScope, Vec<String>))
    ensures
        r.0.view() == param_scope(ps@),
        r.1@ == param_tys(ps@),
        strings_view(r.2@) == owned_params(ps@),
{
    let mut sc = Scope::new();
    let mut tys = TyScope::new();
    let mut owned: Vec<String> = Vec::new();
    let mut i: usize = 0;
    while i < ps.len()
        invariant
            i <= ps@.len(),
            sc.view() == param_scope(ps@.take(i as int)),
            tys@ == param_tys(ps@.take(i as int)),
            strings_view(owned@) == owned_params(ps@.take(i as int)),
        decreases ps@.len() - i,
    {
        let t = match ps[i].ty {
            Some(t) => t,
            None => Ty::I64,
        };
        sc.insert(ps[i].name.clone(), VarInfo::new(t, false));
        tys.insert(ps[i].name.clone(), t);
        let ghost ow0 = strings_view(owned@);
        if is_owned(t) && !ps[i].borrow {
            owned.push(ps[i].name.clone());
        }
        proof {
            let w = ps@.take(i + 1);
            assert(w.drop_last() =~= ps@.take(i as int));
            assert(w.last() == ps@[i as int]);
            assert(strings_view(owned@) =~= owned_params(w));
        }
        i = i + 1;
    }
    assert(ps@.take(ps@.len() as int) =~= ps@);
    (sc, tys, owned)
}

pub(crate) fn find_post(cs: &Vec<Contract>) -> (r: Option<(&Expr, usize)>)
    ensures
        match r {
            Some((e, l)) => first_post(contracts_view(cs@)) == Some((e@, l)),
            None => first_post(contracts_view(cs@)) is None,
        },
{
    let ghost cv = contracts_view(cs@);
    assert(cv.subrange(0, cv.len() as int) =~= cv);
    let mut i: usize = 0;
    while i < cs.len()
        invariant
            i <= cs@.len(),
            cv == contracts_view(cs@),
            first_post(cv) == first_post(cv.subrange(i as int, cv.len() as int)),
        decreases cs@.len() - i,
    {
        let ghost rest = cv.subrange(i as int, cv.len() as int);
        assert(rest[0] == cs@[i as int]@);
        assert(rest.drop_first() =~= cv.subrange(i + 1, cv.len() as int));
        match &cs[i] {
            Contract::Post(e, l) => {
                return Some((e, *l));
            },
            _ => {},
        }
        i = i + 1;
    }
    assert(cv.subrange(cs@.len() as int, cv.len() as int) =~= Seq::<SContract>::empty());
    None
}

fn emit_pre_checks(
    f: &FnDef,
    scope: &Scope,
    sigs: &FuncTable,
    structs: &[StructDef],
    tables: &TypeTables,
    out: &mut Vec<char>,
)
    requires
        pres_safe(contracts_view(f.contracts@), genv(*scope, *sigs, structs@, tables@)),
    ensures
        final(out)@ == old(out)@ + spec_pre_checks(contracts_view(f.contracts@), f.name@, genv(*scope, *sigs, structs@, tables@)),
{
    let ghost g = genv(*scope, *sigs, structs@, tables@);
    let ghost cv = contracts_view(f.contracts@);
    let ghost start = out@;
    let mut j: usize = 0;
    while j < f.contracts.len()
        invariant
            j <= f.contracts@.len(),
            cv == contracts_view(f.contracts@),
            g == genv(*scope, *sigs, structs@, tables@),
            pres_safe(cv, g),
            out@ == start + spec_pre_checks(cv.take(j as int), f.name@, g),
        decreases f.contracts@.len() - j,
    {
        assert(cv[j as int] == f.contracts@[j as int]@);
        match &f.contracts[j] {
            Contract::Pre(e, line) => {
                assert(cv[j as int] is Pre);
                emit_pre_check(e, f.name.as_str(), *line, scope, sigs, structs, tables, out);
            },
            _ => {},
        }
        proof {
            let w = cv.take(j + 1);
            assert(w.drop_last() =~= cv.take(j as int));
            assert(w.last() == cv[j as int]);
        }
        j = j + 1;
    }
    assert(cv.take(f.contracts@.len() as int) =~= cv);
}

fn emit_fn_frees(
    strs: &Vec<String>,
    owned: &Vec<String>,
    tys: &TyScope,
    structs: &[StructDef],
    tables: &TypeTables,
    out: &mut Vec<char>,
)
    requires
        slots_ok(strings_view(strs@) + strings_view(owned@), tys@, structs@, tables@),
    ensures
        final(out)@ == old(out)@ + spec_slot_frees(strings_view(strs@) + strings_view(owned@), tys@, structs@, tables@, 1),
{
    let mut frees: Vec<String> = Vec::new();
    let mut k: usize = 0;
    while k < strs.len()
        invariant
            k <= strs@.len(),
            frees@ == strs@.take(k as int),
        decreases strs@.len() - k,
    {
        frees.push(strs[k].clone());
        assert(frees@ =~= strs@.take(k + 1));
        k = k + 1;
    }
    let mut k: usize = 0;
    while k < owned.len()
        invariant
            k <= owned@.len(),
            frees@ == strs@ + owned@.take(k as int),
        decreases owned@.len() - k,
    {
        frees.push(owned[k].clone());
        assert(frees@ =~= strs@ + owned@.take(k + 1));
        k = k + 1;
    }
    assert(frees@ =~= strs@ + owned@);
    assert(strings_view(frees@) =~= strings_view(strs@) + strings_view(owned@));
    emit_slot_frees(&frees, tys, structs, tables, out, 1);
}

pub open spec fn post_ref_view(p: Option<(&Expr, usize)>) -> Option<(SExpr, usize)> {
    match p {
        Some((e, l)) => Some((e@, l)),
        None => None,
    }
}

fn emit_fn_tail(
    f: &FnDef,
    post: Option<(&Expr, usize)>,
    scope: &Scope,
    sigs: &FuncTable,
    structs: &[StructDef],
    tables: &TypeTables,
    out: &mut Vec<char>,
)
    requires
        post_ref_view(post) == first_post(contracts_view(f.contracts@)),
        fn_sig_ok(*f, structs@, tables@),
        post is Some ==> emit_safe(post->Some_0.0@, with_ret(genv(*scope, *sigs, structs@, tables@), fn_ret_ty(*f))),
    ensures
        final(out)@ == old(out)@ + spec_fn_tail(*f, genv(*scope, *sigs, structs@, tables@), structs@, tables@),
{
    let ghost start = out@;
    let ret = match f.ret {
        Some(t) => t,
        None => Ty::I64,
    };
    let zero = zero_value(ret);
    match post {
        Some((p, l)) => {
            let ct = c_ty(ret, structs, tables);
            push_str_chars("    { ", out);
            push_str_chars(ct.as_str(), out);
            push_str_chars(" t_ret = ", out);
            push_str_chars(zero, out);
            push_str_chars(";\n", out);
            push_str_chars("    ", out);
            crate::c_program::push_post_cond(p, l, scope, ret, sigs, structs, tables, out);
            push_str_chars(" return t_ret; }\n}\n\n", out);
        },
        None => {
            push_str_chars("    return ", out);
            push_str_chars(zero, out);
            push_str_chars(";\n}\n\n", out);
        },
    }
    assert(out@ =~= start + spec_fn_tail(*f, genv(*scope, *sigs, structs@, tables@), structs@, tables@));
}

#[verifier::spinoff_prover]
#[verifier::rlimit(60)]
fn emit_fn_def(f: &FnDef, sigs: &FuncTable, structs: &[StructDef], tables: &TypeTables, out: &mut Vec<char>)
    requires
        fn_def_safe(*f, sigs.view(), structs@, tables@),
    ensures
        final(out)@ == old(out)@ + spec_fn_def(*f, sigs.view(), structs@, tables@),
{
    let ghost start = out@;
    let ghost funcs = sigs.view();
    let ghost g = fn_env(*f, funcs, structs@, tables@);
    let ghost body = stmts_view(f.body@);
    let ghost slots = fn_slots(*f, funcs, structs@, tables@);
    let ret = match f.ret {
        Some(t) => t,
        None => Ty::I64,
    };
    emit_fn_head(f, structs, tables, " {", out);
    let ghost p0 = out@;
    let (mut scope, mut tys, owned) = param_scopes(&f.params);
    assert(genv(scope, *sigs, structs@, tables@) == g);
    let post = find_post(&f.contracts);
    let mut strs: Vec<String> = Vec::new();
    assert(strings_view(strs@) =~= Seq::<Seq<char>>::empty());
    collect_str_decls(&f.body, &mut tys, sigs, structs, tables, &mut strs);
    assert(strings_view(strs@) == slots.1);
    assert(tys@ == slots.0);
    assert forall|i: int| 0 <= i < slots.1.len() implies ty_in_tables(
        slot_ty_of(slots.0, #[trigger] slots.1[i]),
        structs@,
        tables@,
    ) by {
        assert((slots.1 + owned_params(f.params@))[i] == slots.1[i]);
    }
    emit_slot_decls(&strs, &tys, structs, tables, out);
    let ghost p1 = out@;
    emit_pre_checks(f, &scope, sigs, structs, tables, out);
    let ghost p2 = out@;
    let (pe, pl): (Option<&Expr>, usize) = match post {
        Some((e, l)) => (Some(e), l),
        None => (None, 0),
    };
    assert(post_view(pe) == post_expr(first_post(contracts_view(f.contracts@))));
    emit_block(&f.body, &mut scope, sigs, structs, tables, ret, pe, pl, out, 1);
    let ghost p3 = out@;
    emit_fn_frees(&strs, &owned, &tys, structs, tables, out);
    let ghost p4 = out@;
    emit_fn_tail(f, post, &scope, sigs, structs, tables, out);
    assert(out@ =~= start + spec_fn_def(*f, funcs, structs@, tables@));
}

// ───────────────────────── main 与整个翻译单元 ─────────────────────────

/// 后端函数表含每个函数的名字
pub(crate) proof fn lemma_gen_funcs_has(fs: Seq<FnDef>, i: int)
    requires
        0 <= i < fs.len(),
    ensures
        gen_funcs(fs).contains_key(fs[i].name@),
    decreases fs.len(),
{
    if i < fs.len() - 1 {
        assert(fs.drop_last()[i] == fs[i]);
        lemma_gen_funcs_has(fs.drop_last(), i);
    }
}

#[verifier::spinoff_prover]
fn emit_examples(
    fs: &Vec<FnDef>,
    scope: &Scope,
    sigs: &FuncTable,
    structs: &[StructDef],
    tables: &TypeTables,
    out: &mut Vec<char>,
)
    requires
        sigs.view() == gen_funcs(fs@),
        examples_safe(fs@, sigs.view(), genv(*scope, *sigs, structs@, tables@)),
    ensures
        final(out)@ == old(out)@ + spec_examples(fs@, sigs.view(), genv(*scope, *sigs, structs@, tables@)),
{
    let ghost g = genv(*scope, *sigs, structs@, tables@);
    let ghost start = out@;
    let mut i: usize = 0;
    while i < fs.len()
        invariant
            i <= fs@.len(),
            g == genv(*scope, *sigs, structs@, tables@),
            sigs.view() == gen_funcs(fs@),
            examples_safe(fs@, sigs.view(), g),
            out@ == start + spec_examples(fs@.take(i as int), sigs.view(), g),
        decreases fs@.len() - i,
    {
        proof {
            lemma_gen_funcs_has(fs@, i as int);
        }
        let frt = match sigs.get(fs[i].name.as_str()) {
            Some(sig) => sig.ret,
            None => Ty::I64,
        };
        assert forall|j: int| 0 <= j < fs@[i as int].contracts@.len() implies example_safe(
            #[trigger] contracts_view(fs@[i as int].contracts@)[j],
            frt,
            g,
        ) by {
            assert(example_safe(contracts_view(fs@[i as int].contracts@)[j], sigs.view()[fs@[i as int].name@].ret, g));
        }
        emit_fn_examples(&fs[i], frt, scope, sigs, structs, tables, out);
        proof {
            let w = fs@.take(i + 1);
            assert(w.drop_last() =~= fs@.take(i as int));
            assert(w.last() == fs@[i as int]);
        }
        i = i + 1;
    }
    assert(fs@.take(fs@.len() as int) =~= fs@);
}

/// main 的环境：空作用域
pub open spec fn main_env(funcs: Map<Seq<char>, FSig>, structs: Seq<StructDef>, tb: TbView) -> GEnv {
    GEnv { sc: Map::empty(), funcs, structs, tb }
}

/// main 中收集到的槽位
pub open spec fn main_slots(p: Program, funcs: Map<Seq<char>, FSig>, tb: TbView) -> (Map<Seq<char>, Ty>, Seq<Seq<char>>) {
    spec_collect(stmts_view(p.top@), (Map::empty(), seq![]), funcs, p.structs@, tb)
}

/// main：槽位声明、@example 自检、顶层语句、槽位释放
pub open spec fn spec_main(p: Program, funcs: Map<Seq<char>, FSig>, tb: TbView) -> Seq<char> {
    let structs = p.structs@;
    let g0 = main_env(funcs, structs, tb);
    let slots = main_slots(p, funcs, tb);
    "int main(void) {\n"@ + spec_slot_decls(slots.1, slots.0, structs, tb) + spec_examples(p.funcs@, funcs, g0)
        + block_text(stmts_view(p.top@), g0, Ty::I64, None, 0, 1) + spec_slot_frees(slots.1, slots.0, structs, tb, 0)
        + "    return 0;\n}\n\n"@
}

pub open spec fn main_safe(p: Program, funcs: Map<Seq<char>, FSig>, tb: TbView) -> bool {
    let structs = p.structs@;
    let g0 = main_env(funcs, structs, tb);
    let slots = main_slots(p, funcs, tb);
    &&& slots_ok(slots.1, slots.0, structs, tb)
    &&& examples_safe(p.funcs@, funcs, g0)
    &&& block_safe(stmts_view(p.top@), g0, Ty::I64, None)
    &&& 1 + block_depth(stmts_view(p.top@)) < usize::MAX
}

#[verifier::spinoff_prover]
#[verifier::rlimit(40)]
fn emit_main(p: &Program, sigs: &FuncTable, tables: &TypeTables, out: &mut Vec<char>)
    requires
        sigs.view() == gen_funcs(p.funcs@),
        main_safe(*p, sigs.view(), tables@),
    ensures
        final(out)@ == old(out)@ + spec_main(*p, sigs.view(), tables@),
{
    let ghost start = out@;
    let structs = p.structs.as_slice();
    let mut scope = Scope::new();
    assert(genv(scope, *sigs, structs@, tables@) == main_env(sigs.view(), structs@, tables@));
    let mut tys = TyScope::new();
    let mut strs: Vec<String> = Vec::new();
    assert(strings_view(strs@) =~= Seq::<Seq<char>>::empty());
    collect_str_decls(&p.top, &mut tys, sigs, structs, tables, &mut strs);
    push_str_chars("int main(void) {\n", out);
    emit_slot_decls(&strs, &tys, structs, tables, out);
    let ghost a = out@;
    emit_examples(&p.funcs, &scope, sigs, structs, tables, out);
    let ghost b = out@;
    emit_block(&p.top, &mut scope, sigs, structs, tables, Ty::I64, None, 0, out, 1);
    let ghost c = out@;
    emit_slot_frees(&strs, &tys, structs, tables, out, 0);
    push_str_chars("    return 0;\n}\n\n", out);
    assert(out@ =~= start + spec_main(*p, sigs.view(), tables@));
}

pub open spec fn spec_fn_defs(fs: Seq<FnDef>, funcs: Map<Seq<char>, FSig>, structs: Seq<StructDef>, tb: TbView) -> Seq<char>
    decreases fs.len(),
{
    if fs.len() == 0 {
        seq![]
    } else {
        spec_fn_defs(fs.drop_last(), funcs, structs, tb) + spec_fn_def(fs.last(), funcs, structs, tb)
    }
}

fn emit_fn_defs(fs: &Vec<FnDef>, sigs: &FuncTable, structs: &[StructDef], tables: &TypeTables, out: &mut Vec<char>)
    requires
        forall|i: int| 0 <= i < fs@.len() ==> fn_def_safe(#[trigger] fs@[i], sigs.view(), structs@, tables@),
    ensures
        final(out)@ == old(out)@ + spec_fn_defs(fs@, sigs.view(), structs@, tables@),
{
    let ghost start = out@;
    let mut i: usize = 0;
    while i < fs.len()
        invariant
            i <= fs@.len(),
            forall|k: int| 0 <= k < fs@.len() ==> fn_def_safe(#[trigger] fs@[k], sigs.view(), structs@, tables@),
            out@ == start + spec_fn_defs(fs@.take(i as int), sigs.view(), structs@, tables@),
        decreases fs@.len() - i,
    {
        assert(fn_def_safe(fs@[i as int], sigs.view(), structs@, tables@));
        emit_fn_def(&fs[i], sigs, structs, tables, out);
        proof {
            let w = fs@.take(i + 1);
            assert(w.drop_last() =~= fs@.take(i as int));
            assert(w.last() == fs@[i as int]);
        }
        i = i + 1;
    }
    assert(fs@.take(fs@.len() as int) =~= fs@);
}

/// 程序可以生成 C：各类型序号在表内，各表达式与语句都落在生成规则覆盖的形态里
/// （类型检查通过的程序即如此）
pub open spec fn gen_safe(p: Program) -> bool {
    let structs = p.structs@;
    let tb = prog_tb(p);
    let funcs = gen_funcs(p.funcs@);
    &&& forall|i: int| 0 <= i < structs.len() ==> fields_in_tables(#[trigger] structs[i].fields@, structs, tb)
    &&& forall|i: int| 0 <= i < p.funcs@.len() ==> fn_sig_ok(#[trigger] p.funcs@[i], structs, tb)
    &&& main_safe(p, funcs, tb)
    &&& forall|i: int| 0 <= i < p.funcs@.len() ==> fn_def_safe(#[trigger] p.funcs@[i], funcs, structs, tb)
}

/// 整个 C 翻译单元：文件头与运行时、结构体定义、函数前向声明、main、各函数定义
pub open spec fn spec_generate(p: Program) -> Seq<char> {
    let structs = p.structs@;
    let tb = prog_tb(p);
    let funcs = gen_funcs(p.funcs@);
    c_header() + spec_struct_defs(structs, structs, tb) + spec_fwd_decls(p.funcs@, structs, tb) + "\n"@ + "\n"@
        + spec_main(p, funcs, tb) + spec_fn_defs(p.funcs@, funcs, structs, tb)
}

/// 生成完整 C 源码
pub fn generate(prog: &Program) -> (r: String)
    requires
        gen_safe(*prog),
    ensures
        r@ == spec_generate(*prog),
{
    let mut tables = TypeTables::new();
    tables.set_arrs(prog.arrs.as_slice());
    tables.set_darrs(prog.darrs.as_slice());
    tables.set_tuples(prog.tuples.as_slice());
    tables.set_maps(prog.maps.as_slice());
    assert(tables@ == prog_tb(*prog));
    let sigs = gen_func_table(&prog.funcs);
    let mut out: Vec<char> = Vec::new();
    push_header(&mut out);
    emit_struct_defs(&prog.structs, &tables, &mut out);
    emit_fwd_decls(&prog.funcs, prog.structs.as_slice(), &tables, &mut out);
    push_str_chars("\n", &mut out);
    push_str_chars("\n", &mut out);
    let ghost a = out@;
    emit_main(prog, &sigs, &tables, &mut out);
    let ghost b = out@;
    emit_fn_defs(&prog.funcs, &sigs, prog.structs.as_slice(), &tables, &mut out);
    assert(out@ =~= spec_generate(*prog));
    string_of_all(&out)
}

} // verus!
